use rparse::ascii::{alpha_num, digit, letter, punctuation, whitespace};
use rparse::choice::{must, optional, or, skip, with};
use rparse::combinator::{
    and_then, attempt, collect, expect, from_str, lookahead, no_expect, wrap, Decimal,
    InRange, Wrap,
};
use rparse::error::{Error, Expected, Unexpected};
use rparse::many::{many, many1};
use rparse::parser::{ParseResult, Parser};
use rparse::position::{IndexPosition, LinePosition, NullPosition};
use rparse::range::range;
use rparse::seq::then;
use rparse::state::State;
use rparse::token::{any, token};

fn chars(s: &str) -> Vec<char> {
    s.chars().collect()
}

fn rest<X>(s: &State<char, X>) -> String {
    s.items[s.offset..].iter().collect()
}

fn at(i: usize) -> IndexPosition {
    IndexPosition(i)
}

fn item_error(c: char, expected: Vec<Expected<char>>, i: usize) -> Error<char, IndexPosition> {
    Error { unexpected: Unexpected::Item(c), expected, position: at(i) }
}

fn eoi_error(expected: Vec<Expected<char>>, i: usize) -> Error<char, IndexPosition> {
    Error { unexpected: Unexpected::EndOfInput, expected, position: at(i) }
}

fn desc(d: &'static str) -> Expected<char> {
    Expected::Description(d)
}

#[test]
fn test_optional() {
    for (input, expected, left) in [("", None, ""), ("y", None, "y"), ("x", Some('x'), ""), ("xyz", Some('x'), "yz")] {
        let v = chars(input);
        let (r, s) = optional(token('x')).parse(State::<char, NullPosition>::from(&v[..]));
        match expected {
            Some(c) => assert_eq!(r, ParseResult::Matched(c)),
            None => assert_eq!(r, ParseResult::NoMatch),
        }
        assert_eq!(rest(&s), left);
    }
    let v = chars("abc123");
    let (r, s) = optional(many1(alpha_num())).parse(State::<char, NullPosition>::from(&v[..]));
    assert_eq!(r, ParseResult::Matched(chars("abc123")));
    assert_eq!(rest(&s), "");
    let v = chars("");
    let (r, s) = optional(many(any())).parse(State::<char, NullPosition>::from(&v[..]));
    assert_eq!(r, ParseResult::Matched(vec![]));
    assert_eq!(rest(&s), "");
}

#[test]
fn test_with() {
    let p = with(token('a'), token('b'));
    for (input, ch, left, pos) in [("abcd", 'b', "cd", 2), ("ab", 'b', "", 2)] {
        let v = chars(input);
        let (r, s) = p.parse(State::<char, IndexPosition>::from(&v[..]));
        assert_eq!(r, ParseResult::Matched(ch));
        assert_eq!((rest(&s), s.position), (left.to_string(), at(pos)));
    }
    for (input, found, want, pos) in [("def", 'd', 'a', 0), ("aab", 'a', 'b', 1), ("bcd", 'b', 'a', 0)] {
        let v = chars(input);
        let (r, s) = p.parse(State::<char, IndexPosition>::from(&v[..]));
        assert_eq!(r, ParseResult::Failed(item_error(found, vec![Expected::Item(want)], pos)));
        assert_eq!(rest(&s), input);
    }
    let p = with(many1(digit()), many1(letter()));
    let v = chars("123abc456");
    let (r, s) = p.parse(State::<char, IndexPosition>::from(&v[..]));
    assert_eq!(r, ParseResult::Matched(vec!['a', 'b', 'c']));
    assert_eq!((rest(&s), s.position), ("456".to_string(), at(6)));
    let v = chars(" 1 2 3");
    let (r, _) = p.parse(State::<char, IndexPosition>::from(&v[..]));
    assert_eq!(r, ParseResult::Failed(item_error(' ', vec![desc("an ascii digit")], 0)));
    let v = chars("123 abc");
    let (r, s) = p.parse(State::<char, IndexPosition>::from(&v[..]));
    assert_eq!(r, ParseResult::Failed(item_error(' ', vec![desc("an ascii letter")], 3)));
    assert_eq!(rest(&s), "123 abc");
}

#[test]
fn skip_keeps_the_first_output() {
    let p = skip(many1(digit()), token(';'));
    let v = chars("42;x");
    let (r, s) = p.parse(State::<char, IndexPosition>::from(&v[..]));
    assert_eq!(r, ParseResult::Matched(vec!['4', '2']));
    assert_eq!(rest(&s), "x");
    let v = chars("42x");
    let (r, s) = p.parse(State::<char, IndexPosition>::from(&v[..]));
    assert_eq!(r, ParseResult::Failed(item_error('x', vec![Expected::Item(';')], 2)));
    assert_eq!(rest(&s), "42x");
}

#[test]
fn test_or() {
    let p = or(token('a'), token('b'));
    let v = chars("bcd");
    let (r, s) = p.parse(State::<char, IndexPosition>::from(&v[..]));
    assert_eq!(r, ParseResult::Matched('b'));
    assert_eq!((rest(&s), s.position), ("cd".to_string(), at(1)));
    let v = chars("a");
    let (r, s) = p.parse(State::<char, IndexPosition>::from(&v[..]));
    assert_eq!(r, ParseResult::Matched('a'));
    assert_eq!((rest(&s), s.position), ("".to_string(), at(1)));
    let v = chars("def");
    let (r, _) = p.parse(State::<char, IndexPosition>::from(&v[..]));
    assert_eq!(
        r,
        ParseResult::Failed(item_error('d', vec![Expected::Item('a'), Expected::Item('b')], 0))
    );

    let p = or(many1(digit()), then(letter(), whitespace()));
    let v = chars("123a bc");
    let (r, s) = p.parse(State::<char, IndexPosition>::from(&v[..]));
    assert_eq!(r, ParseResult::Matched(chars("123")));
    assert_eq!((rest(&s), s.position), ("a bc".to_string(), at(3)));
    let v = chars("a b c");
    let (r, s) = p.parse(State::<char, IndexPosition>::from(&v[..]));
    assert_eq!(r, ParseResult::Matched(chars("a ")));
    assert_eq!((rest(&s), s.position), ("b c".to_string(), at(2)));

    let (feel, feet, fee) = (chars("feel"), chars("feet"), chars("fee"));
    let p = or(or(range(&feel), range(&feet)), range(&fee));
    for (input, out, left, pos) in [("feel", "feel", "", 4), ("feet", "feet", "", 4), ("fees", "fee", "s", 3)] {
        let v = chars(input);
        let (r, s) = p.parse(State::<char, IndexPosition>::from(&v[..]));
        match r {
            ParseResult::Matched(m) => assert_eq!(m.iter().collect::<String>(), out),
            other => panic!("expected a match, got {:?}", other),
        }
        assert_eq!((rest(&s), s.position), (left.to_string(), at(pos)));
    }
    let v = chars("fern");
    let (r, s) = p.parse(State::<char, IndexPosition>::from(&v[..]));
    assert_eq!(
        r,
        ParseResult::Failed(item_error(
            'r',
            vec![Expected::Range(feel.clone()), Expected::Range(feet.clone()), Expected::Range(fee.clone())],
            2
        ))
    );
    assert_eq!(rest(&s), "fern");
}

#[test]
fn test_choice() {
    let v = chars("a");
    let (r, s) = or(token('a'), token('b')).parse(State::<char, NullPosition>::from(&v[..]));
    assert_eq!(r, ParseResult::Matched('a'));
    assert_eq!(rest(&s), "");

    let p = or(token('a'), or(digit(), punctuation()));
    for (input, ch, left) in [("a9.", 'a', "9."), ("9.a", '9', ".a"), (".a9", '.', "a9")] {
        let v = chars(input);
        let (r, s) = p.parse(State::<char, IndexPosition>::from(&v[..]));
        assert_eq!(r, ParseResult::Matched(ch));
        assert_eq!((rest(&s), s.position), (left.to_string(), at(1)));
    }
    let v = chars("ba9.");
    let (r, _) = p.parse(State::<char, IndexPosition>::from(&v[..]));
    assert_eq!(
        r,
        ParseResult::Failed(item_error(
            'b',
            vec![Expected::Item('a'), desc("an ascii digit"), desc("an ascii punctuation character")],
            0
        ))
    );

    let v = chars("bcd");
    let (r, s) = or(token('a'), or(token('b'), token('c'))).parse(State::<char, NullPosition>::from(&v[..]));
    assert_eq!(r, ParseResult::Matched('b'));
    assert_eq!(rest(&s), "cd");

    let v = chars("Z");
    let (r, s) = letter().parse(State::<char, NullPosition>::from(&v[..]));
    assert_eq!(r, ParseResult::Matched('Z'));
    assert_eq!(rest(&s), "");

    let p = or(many1(digit()), then(letter(), whitespace()));
    let v = chars("123a bc");
    let (r, s) = p.parse(State::<char, IndexPosition>::from(&v[..]));
    assert_eq!(r, ParseResult::Matched(chars("123")));
    assert_eq!((rest(&s), s.position), ("a bc".to_string(), at(3)));
    let v = chars("a b c");
    let (r, s) = p.parse(State::<char, IndexPosition>::from(&v[..]));
    assert_eq!(r, ParseResult::Matched(chars("a ")));
    assert_eq!((rest(&s), s.position), ("b c".to_string(), at(2)));
}

#[test]
fn test_attempt() {
    let lit = chars("abcdef");
    let p = attempt(range(&lit));
    let v = chars("abcdef");
    let (r, s) = p.parse_lazy(State::<char, IndexPosition>::from(&v[..]));
    assert_eq!(r, ParseResult::Matched(&lit[..]));
    assert_eq!((rest(&s), s.position), ("".to_string(), at(6)));

    let v = chars("abcd!!!!");
    let (r, s) = range(&lit).parse_lazy(State::<char, IndexPosition>::from(&v[..]));
    assert!(r.is_failed());
    assert_eq!((rest(&s), s.position), ("!!".to_string(), at(6)));

    let v = chars("abcde!!!");
    let (r, s) = p.parse_lazy(State::<char, IndexPosition>::from(&v[..]));
    assert!(r.is_failed());
    assert_eq!((rest(&s), s.position), ("abcde!!!".to_string(), at(0)));
}

#[test]
fn lookahead_consumes_nothing() {
    let v = chars("xy");
    let (r, s) = lookahead(token('x')).parse_lazy(State::<char, IndexPosition>::from(&v[..]));
    assert_eq!(r, ParseResult::Matched('x'));
    assert_eq!(s.offset, 0);
    let lit = chars("xz");
    let (r, s) = lookahead(range(&lit)).parse_lazy(State::<char, IndexPosition>::from(&v[..]));
    assert!(r.is_failed());
    assert_eq!(s.offset, 0);
}

#[test]
fn must_turns_no_match_into_failure() {
    let v = chars("y");
    let (r, s) = must(optional(token('x'))).parse(State::<char, IndexPosition>::from(&v[..]));
    assert_eq!(r, ParseResult::Failed(item_error('y', vec![Expected::Item('x')], 0)));
    assert_eq!(s.offset, 0);
    let v = chars("x");
    let (r, _) = must(optional(token('x'))).parse(State::<char, IndexPosition>::from(&v[..]));
    assert_eq!(r, ParseResult::Matched('x'));
}

#[test]
fn expect_relabels_failures_at_the_start() {
    let v = chars("q");
    let (r, _) = expect(or(token('a'), token('b')), "a or b").parse(State::<char, IndexPosition>::from(&v[..]));
    assert_eq!(r, ParseResult::Failed(item_error('q', vec![desc("a or b")], 0)));
    let (r, _) = no_expect(token('a')).parse(State::<char, IndexPosition>::from(&v[..]));
    assert_eq!(r, ParseResult::Failed(item_error('q', vec![], 0)));
    let lit = chars("ab");
    let v = chars("ax");
    let (r, _) = expect(range(&lit), "ab").parse(State::<char, IndexPosition>::from(&v[..]));
    assert_eq!(r, ParseResult::Failed(item_error('x', vec![Expected::Range(lit.clone())], 1)));
}

#[test]
fn combinator_test_map() {
    let p = collect(wrap(digit()));
    let v = chars("3");
    let (r, s) = p.parse(State::<char, NullPosition>::from(&v[..]));
    assert_eq!(r, ParseResult::Matched("3".to_string()));
    assert_eq!(rest(&s), "");
    let v = chars("");
    let (r, _) = p.parse(State::<char, NullPosition>::from(&v[..]));
    assert_eq!(
        r,
        ParseResult::Failed(Error {
            unexpected: Unexpected::EndOfInput,
            expected: vec![desc("an ascii digit")],
            position: NullPosition,
        })
    );
    let v = chars("a3");
    let (r, _) = p.parse(State::<char, NullPosition>::from(&v[..]));
    assert_eq!(
        r,
        ParseResult::Failed(Error {
            unexpected: Unexpected::Item('a'),
            expected: vec![desc("an ascii digit")],
            position: NullPosition,
        })
    );
}

#[test]
fn function_test_map() {
    let p = rparse::combinator::map(digit(), Wrap);
    let v = chars("3");
    let (r, s) = p.parse(State::<char, NullPosition>::from(&v[..]));
    assert_eq!(r, ParseResult::Matched(vec!['3']));
    assert_eq!(rest(&s), "");
    let v = chars("a3");
    let (r, s) = p.parse(State::<char, NullPosition>::from(&v[..]));
    assert!(r.is_failed());
    assert_eq!(rest(&s), "a3");
}

#[test]
fn test_and_then() {
    let p = and_then(many1(alpha_num()), Decimal);
    let v = chars("324 dogs");
    let (r, s) = p.parse(State::<char, IndexPosition>::from(&v[..]));
    assert_eq!(r, ParseResult::Matched(324));
    assert_eq!((rest(&s), s.position), (" dogs".to_string(), at(3)));
    let v = chars("324dogs");
    let (r, s) = p.parse(State::<char, IndexPosition>::from(&v[..]));
    assert_eq!(
        r,
        ParseResult::Failed(Error {
            unexpected: Unexpected::Message("invalid digit found in string".to_string()),
            expected: vec![desc("an ascii letter or digit")],
            position: at(7),
        })
    );
    assert_eq!(rest(&s), "324dogs");
}

#[test]
fn and_then_checks_a_numeric_range() {
    let p = and_then(from_str(many1(digit())), InRange { lo: 1, hi: 12 });
    let v = chars("7 ");
    let (r, _) = p.parse(State::<char, IndexPosition>::from(&v[..]));
    assert_eq!(r, ParseResult::Matched(7));
    let v = chars("13 ");
    let (r, s) = p.parse(State::<char, IndexPosition>::from(&v[..]));
    assert_eq!(
        r,
        ParseResult::Failed(Error {
            unexpected: Unexpected::Message("number out of range".to_string()),
            expected: vec![],
            position: at(2),
        })
    );
    assert_eq!(s.offset, 0);
}

#[test]
fn test_collect() {
    let p = collect(many1(digit()));
    for (input, out, left, pos) in [("123", "123", "", 3), ("123abc", "123", "abc", 3)] {
        let v = chars(input);
        let (r, s) = p.parse(State::<char, IndexPosition>::from(&v[..]));
        assert_eq!(r, ParseResult::Matched(out.to_string()));
        assert_eq!((rest(&s), s.position), (left.to_string(), at(pos)));
    }
    let v = chars("");
    let (r, _) = p.parse(State::<char, IndexPosition>::from(&v[..]));
    assert_eq!(r, ParseResult::Failed(eoi_error(vec![desc("an ascii digit")], 0)));
    let v = chars("abc");
    let (r, _) = p.parse(State::<char, IndexPosition>::from(&v[..]));
    assert_eq!(r, ParseResult::Failed(item_error('a', vec![desc("an ascii digit")], 0)));
}

#[test]
fn test_wrap() {
    let p = wrap(token('x'));
    let v = chars("x");
    let (r, s) = p.parse(State::<char, IndexPosition>::from(&v[..]));
    assert_eq!(r, ParseResult::Matched(vec!['x']));
    assert_eq!((rest(&s), s.position), ("".to_string(), at(1)));
    let v = chars("");
    let (r, _) = p.parse(State::<char, IndexPosition>::from(&v[..]));
    assert_eq!(r, ParseResult::Failed(eoi_error(vec![Expected::Item('x')], 0)));
    let v = chars("\t");
    let (r, _) = p.parse(State::<char, IndexPosition>::from(&v[..]));
    assert_eq!(r, ParseResult::Failed(item_error('\t', vec![Expected::Item('x')], 0)));
}

#[test]
fn combinator_test_from_str() {
    let p = from_str(many1(digit()));
    for (input, n, left) in [("369", 369u64, ""), ("369abc", 369, "abc")] {
        let v = chars(input);
        let (r, s) = p.parse(State::<char, NullPosition>::from(&v[..]));
        assert_eq!(r, ParseResult::Matched(n));
        assert_eq!(rest(&s), left);
    }
    let v = chars("abc");
    let (r, _) = p.parse(State::<char, NullPosition>::from(&v[..]));
    assert_eq!(
        r,
        ParseResult::Failed(Error {
            unexpected: Unexpected::Item('a'),
            expected: vec![desc("an ascii digit")],
            position: NullPosition,
        })
    );
    let v = chars("12e");
    let (r, s) = p.parse(State::<char, LinePosition>::from(&v[..]));
    assert_eq!(r, ParseResult::Matched(12));
    assert_eq!((rest(&s), s.position), ("e".to_string(), LinePosition { line: 1, column: 3 }));
    let v = chars("e12");
    let (r, _) = p.parse(State::<char, LinePosition>::from(&v[..]));
    assert_eq!(
        r,
        ParseResult::Failed(Error {
            unexpected: Unexpected::Item('e'),
            expected: vec![desc("an ascii digit")],
            position: LinePosition { line: 1, column: 1 },
        })
    );
}

#[test]
fn function_test_from_str() {
    let p = from_str(many1(or(token('+'), digit())));
    let v = chars("+12e");
    let (r, s) = p.parse(State::<char, IndexPosition>::from(&v[..]));
    assert_eq!(r, ParseResult::Matched(12));
    assert_eq!(rest(&s), "e");
    let v = chars("1+2");
    let (r, s) = p.parse_lazy(State::<char, IndexPosition>::from(&v[..]));
    assert_eq!(
        r,
        ParseResult::Failed(Error {
            unexpected: Unexpected::Message("invalid digit found in string".to_string()),
            expected: vec![],
            position: at(3),
        })
    );
    assert_eq!(s.offset, 3);
}

#[test]
fn from_str_refuses_numbers_too_large() {
    let p = from_str(many1(digit()));
    let v = chars("18446744073709551616");
    let (r, _) = p.parse_lazy(State::<char, IndexPosition>::from(&v[..]));
    assert_eq!(
        r,
        ParseResult::Failed(Error {
            unexpected: Unexpected::Message("number too large to fit in target type".to_string()),
            expected: vec![],
            position: at(20),
        })
    );
    let v = chars("18446744073709551615");
    let (r, _) = p.parse(State::<char, IndexPosition>::from(&v[..]));
    assert_eq!(r, ParseResult::Matched(u64::MAX));
}

#[test]
fn test_many() {
    let v = chars("aaabcd");
    let (r, s) = many(token('a')).parse(State::<char, NullPosition>::from(&v[..]));
    assert_eq!(r, ParseResult::Matched(chars("aaa")));
    assert_eq!(rest(&s), "bcd");
    let (r, s) = collect(many(token('a'))).parse(State::<char, NullPosition>::from(&v[..]));
    assert_eq!(r, ParseResult::Matched("aaa".to_string()));
    assert_eq!(rest(&s), "bcd");
    let v = chars("abcd");
    let (r, s) = many(token('b')).parse(State::<char, NullPosition>::from(&v[..]));
    assert_eq!(r, ParseResult::Matched(vec![]));
    assert_eq!(rest(&s), "abcd");
    let v = chars("aaaa");
    let (r, s) = many(token('a')).parse(State::<char, NullPosition>::from(&v[..]));
    assert_eq!(r, ParseResult::Matched(chars("aaaa")));
    assert_eq!(rest(&s), "");
    let v = chars("aaabcd");
    let (r, s) = many(many1(token('a'))).parse(State::<char, NullPosition>::from(&v[..]));
    assert_eq!(r, ParseResult::Matched(vec![chars("aaa")]));
    assert_eq!(rest(&s), "bcd");
    let (r, s) = many(many1(token('b'))).parse(State::<char, NullPosition>::from(&v[..]));
    assert_eq!(r, ParseResult::Matched(Vec::<Vec<char>>::new()));
    assert_eq!(rest(&s), "aaabcd");
}

#[test]
fn test_many1() {
    let v = chars("aaabcd");
    let (r, s) = many1(token('a')).parse(State::<char, NullPosition>::from(&v[..]));
    assert_eq!(r, ParseResult::Matched(chars("aaa")));
    assert_eq!(rest(&s), "bcd");
    let v = chars("abcd");
    let (r, s) = many1(token('a')).parse(State::<char, NullPosition>::from(&v[..]));
    assert_eq!(r, ParseResult::Matched(chars("a")));
    assert_eq!(rest(&s), "bcd");
    let v = chars("aaaa");
    let (r, s) = many1(token('a')).parse(State::<char, NullPosition>::from(&v[..]));
    assert_eq!(r, ParseResult::Matched(vec!['a', 'a', 'a', 'a']));
    assert_eq!(rest(&s), "");
    let v = chars("abcd");
    let (r, s) = many1(token('b')).parse(State::<char, NullPosition>::from(&v[..]));
    assert!(r.is_failed());
    assert_eq!(rest(&s), "abcd");
}

#[test]
fn many_stops_on_a_match_that_consumes_nothing() {
    let v = chars("xyz");
    let (r, s) = many(lookahead(any())).parse(State::<char, IndexPosition>::from(&v[..]));
    assert_eq!(r, ParseResult::Matched(vec![]));
    assert_eq!(s.offset, 0);
    let (r, s) = many1(optional(token('q'))).parse(State::<char, IndexPosition>::from(&v[..]));
    assert_eq!(r, ParseResult::Failed(item_error('x', vec![Expected::Item('q')], 0)));
    assert_eq!(s.offset, 0);
}

#[test]
fn test_then() {
    let p = then(token('X'), token('O'));
    for (input, left) in [("XO", ""), ("XOXO", "XO")] {
        let v = chars(input);
        let (r, s) = p.parse(State::<char, IndexPosition>::from(&v[..]));
        assert_eq!(r, ParseResult::Matched(vec!['X', 'O']));
        assert_eq!((rest(&s), s.position), (left.to_string(), at(2)));
    }
    let v = chars("XY");
    let (r, _) = p.parse(State::<char, IndexPosition>::from(&v[..]));
    assert_eq!(r, ParseResult::Failed(item_error('Y', vec![Expected::Item('O')], 1)));
    let v = chars("ZY");
    let (r, _) = p.parse(State::<char, IndexPosition>::from(&v[..]));
    assert_eq!(r, ParseResult::Failed(item_error('Z', vec![Expected::Item('X')], 0)));
}
