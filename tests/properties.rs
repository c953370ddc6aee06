use rparse::ascii::digit;
use rparse::choice::or;
use rparse::error::{Error, Expected, Unexpected};
use rparse::many::{many, many1};
use rparse::parser::{ParseResult, Parser};
use rparse::position::{IndexPosition, LinePosition, Position};
use rparse::range::range;
use rparse::seq::then;
use rparse::state::State;
use rparse::token::token;

fn chars(s: &str) -> Vec<char> {
    s.chars().collect()
}

fn rest<X>(s: &State<char, X>) -> String {
    s.items[s.offset..].iter().collect()
}

#[test]
fn range_update_equals_itemwise_update() {
    let items = chars("ab\ncd\n\nef");
    let mut whole = LinePosition { line: 1, column: 1 };
    whole.update_range(&items);
    let mut stepwise = LinePosition { line: 1, column: 1 };
    for c in &items {
        stepwise.update(*c);
    }
    assert_eq!(whole, stepwise);
    assert_eq!(whole, LinePosition { line: 4, column: 3 });
    let mut whole = IndexPosition(5);
    <IndexPosition as Position<char>>::update_range(&mut whole, &items);
    let mut stepwise = IndexPosition(5);
    for c in &items {
        stepwise.update(*c);
    }
    assert_eq!(whole, stepwise);
    assert_eq!(whole, IndexPosition(14));
}

#[test]
fn stream_range_advances_like_pops() {
    let items = chars("x\nyz");
    let mut a = State::<char, LinePosition>::from(&items[..]);
    let mut b = a;
    let got = a.range(3).unwrap();
    assert_eq!(got, &items[..3]);
    for _ in 0..3 {
        b.pop();
    }
    assert_eq!((a.offset, a.position), (b.offset, b.position));
    assert_eq!(a.position, LinePosition { line: 2, column: 2 });
    assert!(a.range(2).is_none());
    assert_eq!(a.offset, 3);
}

#[test]
fn failed_parse_gives_back_the_stream() {
    let lit = chars("abcd");
    let input = chars("abcx rest");
    let s = State::<char, LinePosition>::from(&input[..]);
    let p = then(token('a'), token('q'));
    let (r, t) = p.parse(s);
    assert!(r.is_failed());
    assert_eq!((t.offset, t.position, rest(&t)), (s.offset, s.position, rest(&s)));
    let (r, t) = range(&lit).parse(s);
    assert!(r.is_failed());
    assert_eq!((t.offset, t.position), (0, LinePosition { line: 1, column: 1 }));
    let (r, t) = range(&lit).parse_lazy(s);
    assert!(r.is_failed());
    assert_eq!(t.offset, 4);
}

#[test]
fn choice_grouping_does_not_matter() {
    let (feel, feet, fee) = (chars("feel"), chars("feet"), chars("fee"));
    for input in ["feel", "feet", "fees", "fern", "f", "", "xyz"] {
        let v = chars(input);
        let s = State::<char, IndexPosition>::from(&v[..]);
        let left = or(or(range(&feel), range(&feet)), range(&fee)).parse(s);
        let right = or(range(&feel), or(range(&feet), range(&fee))).parse(s);
        assert_eq!(left.0, right.0);
        assert_eq!((left.1.offset, left.1.position), (right.1.offset, right.1.position));
    }
}

#[test]
fn many_and_many1_when_nothing_matches() {
    let v = chars("xyz");
    let s = State::<char, IndexPosition>::from(&v[..]);
    let (r, t) = many(digit()).parse(s);
    assert_eq!(r, ParseResult::Matched(vec![]));
    assert_eq!(t.offset, 0);
    let (r, t) = many1(digit()).parse_lazy(s);
    let (inner, _) = digit().parse_lazy(s);
    assert!(inner.is_failed());
    assert_eq!(r, ParseResult::Failed(match inner { ParseResult::Failed(e) => e, _ => unreachable!() }));
    assert_eq!(t.offset, 0);
}

#[test]
fn range_literal_def_against_deg() {
    let lit = chars("def");
    let v = chars("deg");
    let (r, _) = range(&lit).parse(State::<char, IndexPosition>::from(&v[..]));
    assert_eq!(
        r,
        ParseResult::Failed(Error {
            unexpected: Unexpected::Item('g'),
            expected: vec![Expected::Range(lit.clone())],
            position: IndexPosition(2),
        })
    );
}

#[test]
fn choice_of_two_items_merges_expectations() {
    let v = chars("cab");
    let (r, t) = or(token('a'), token('b')).parse(State::<char, IndexPosition>::from(&v[..]));
    assert_eq!(
        r,
        ParseResult::Failed(Error {
            unexpected: Unexpected::Item('c'),
            expected: vec![Expected::Item('a'), Expected::Item('b')],
            position: IndexPosition(0),
        })
    );
    assert_eq!(t.offset, 0);
}

#[test]
fn merge_keeps_the_furthest_failure() {
    let near = Error::item('x', IndexPosition(1)).expecting(Expected::Item('a'));
    let far = Error::item('y', IndexPosition(4)).expecting(Expected::Item('b'));
    assert_eq!(near.clone().merge(far.clone()), far);
    assert_eq!(far.clone().merge(near.clone()), far);
    let other = Error::eof(IndexPosition(1)).expecting(Expected::Description("more"));
    assert_eq!(
        near.clone().merge(other),
        Error {
            unexpected: Unexpected::Item('x'),
            expected: vec![Expected::Item('a'), Expected::Description("more")],
            position: IndexPosition(1),
        }
    );
}

#[test]
fn http_version_scenario() {
    let (http, v11, v1, v2) = (chars("HTTP/"), chars("1.1"), chars("1"), chars("2"));
    let p = then(range(&http), or(range(&v11), or(range(&v1), range(&v2))));
    let input = chars("HTTP/1.1 x");
    let (r, s) = p.parse(State::<char, IndexPosition>::from(&input[..]));
    match r {
        ParseResult::Matched(parts) => {
            assert_eq!(parts.len(), 2);
            assert_eq!(parts[0], &http[..]);
            assert_eq!(parts[1], &v11[..]);
        }
        other => panic!("expected a match, got {:?}", other),
    }
    assert_eq!(s.offset, 8);
    assert_eq!(s.position, IndexPosition(8));
    assert_eq!(rest(&s), " x");
}

#[test]
fn many1_digits_scenario() {
    let v = chars("");
    let (r, s) = many1(digit()).parse(State::<char, IndexPosition>::from(&v[..]));
    assert_eq!(
        r,
        ParseResult::Failed(Error {
            unexpected: Unexpected::EndOfInput,
            expected: vec![Expected::Description("an ascii digit")],
            position: IndexPosition(0),
        })
    );
    assert_eq!(s.offset, 0);
    let v = chars("12a");
    let (r, s) = many1(digit()).parse(State::<char, IndexPosition>::from(&v[..]));
    assert_eq!(r, ParseResult::Matched(vec!['1', '2']));
    assert_eq!(rest(&s), "a");
}

#[test]
fn result_conversion() {
    let r: ParseResult<char, char, IndexPosition> = ParseResult::Matched('a');
    assert_eq!(r.result(), Ok(Some('a')));
    let r: ParseResult<char, char, IndexPosition> = ParseResult::NoMatch;
    assert_eq!(r.result(), Ok(None));
    let e = Error::eof(IndexPosition(3));
    let r: ParseResult<char, char, IndexPosition> = ParseResult::Failed(e.clone());
    assert_eq!(r.result(), Err(e));
}

#[test]
fn http_version_scenario_with_choice() {
    let (http, v11, v1, v2) = (chars("HTTP/"), chars("1.1"), chars("1"), chars("2"));
    let versions = rparse::choice::choice(vec![range(&v11), range(&v1), range(&v2)]);
    let p = then(range(&http), versions);
    let input = chars("HTTP/1.1 x");
    let (r, s) = p.parse(State::<char, IndexPosition>::from(&input[..]));
    assert_eq!(r, ParseResult::Matched(vec![&http[..], &v11[..]]));
    assert_eq!(s.offset, 8);
    assert_eq!(rest(&s), " x");
}

#[test]
fn choice_agrees_with_nested_or() {
    for input in ["a", "b", "c", "d", ""] {
        let v = chars(input);
        let s = State::<char, IndexPosition>::from(&v[..]);
        let list = rparse::choice::choice(vec![token('a'), token('b'), token('c')]).parse(s);
        let nested = or(token('a'), or(token('b'), token('c'))).parse(s);
        assert_eq!(list.0, nested.0);
        assert_eq!(list.1.offset, nested.1.offset);
    }
    let v = chars("d");
    let (r, _) = rparse::choice::choice(vec![token('a'), token('b'), token('c')])
        .parse(State::<char, IndexPosition>::from(&v[..]));
    assert_eq!(
        r,
        ParseResult::Failed(Error {
            unexpected: Unexpected::Item('d'),
            expected: vec![Expected::Item('a'), Expected::Item('b'), Expected::Item('c')],
            position: IndexPosition(0),
        })
    );
}

#[test]
fn choice_of_nothing_fails_at_the_cursor() {
    let v = chars("z");
    let alternatives: Vec<rparse::token::Token<char>> = vec![];
    let p = rparse::choice::choice(alternatives);
    let (r, s) = p.parse(State::<char, IndexPosition>::from(&v[..]));
    assert_eq!(
        r,
        ParseResult::Failed(Error { unexpected: Unexpected::Item('z'), expected: vec![], position: IndexPosition(0) })
    );
    assert_eq!(s.offset, 0);
    assert_eq!(Parser::<char, IndexPosition>::expected_error(&p), vec![]);
    let q = rparse::choice::choice(vec![token('x'), token('y')]);
    assert_eq!(
        Parser::<char, IndexPosition>::expected_error(&q),
        vec![Expected::Item('x'), Expected::Item('y')]
    );
}

#[test]
fn merge_one_of_skips_absent_errors() {
    let a = Error::item('x', IndexPosition(2)).expecting(Expected::Item('a'));
    let b = Error::item('y', IndexPosition(2)).expecting(Expected::Item('b'));
    let far = Error::eof(IndexPosition(5)).expecting(Expected::Item('c'));
    let merged = rparse::error::merge_one_of(vec![Some(a.clone()), None, Some(b.clone())]);
    assert_eq!(
        merged,
        Some(Error {
            unexpected: Unexpected::Item('x'),
            expected: vec![Expected::Item('a'), Expected::Item('b')],
            position: IndexPosition(2),
        })
    );
    let merged = rparse::error::merge_one_of(vec![Some(a), Some(far.clone()), Some(b)]);
    assert_eq!(merged, Some(far));
    let none: Vec<Option<Error<char, IndexPosition>>> = vec![None, None];
    assert_eq!(rparse::error::merge_one_of(none), None);
}

#[test]
fn backup_and_restore() {
    let v = chars("abc");
    let mut s = State::<char, LinePosition>::from(&v[..]);
    let snapshot = s.backup();
    s.pop();
    s.pop();
    assert_eq!(s.offset, 2);
    s.restore(snapshot);
    assert_eq!((s.offset, s.position, rest(&s)), (0, LinePosition { line: 1, column: 1 }, "abc".to_string()));
}
