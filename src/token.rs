//! Parsers of a single item.

use crate::error::{Error, ErrorView, Expected, ExpectedView, UnexpectedView, expected_views};
use crate::item::{AsciiClass, StreamItem};
use crate::parser::{ParseResult, Parser, Reply};
use crate::position::Position;
use crate::state::{lemma_advances_refl, lemma_moved, State};
use vstd::prelude::*;

verus! {

/// A test on single items.
pub trait Predicate<T> {
    spec fn spec_test(&self, t: T) -> bool;

    fn test(&self, t: &T) -> (r: bool)
        ensures
            r == self.spec_test(*t),
    ;
}

impl<T: StreamItem> Predicate<T> for AsciiClass {
    open spec fn spec_test(&self, t: T) -> bool {
        self.contains(t.spec_code())
    }

    fn test(&self, t: &T) -> (r: bool) {
        self.test_code(t.code())
    }
}

/// An error at the cursor of `s` that expects `e`.
pub open spec fn error_expecting<'a, T: StreamItem, X: Position<T>>(
    s: State<'a, T, X>,
    e: Seq<ExpectedView<T>>,
) -> ErrorView<T, X> {
    ErrorView { unexpected: s.spec_found(), expected: e, position: s.position }
}

/// Takes the next item if it passes `accepts`; otherwise fails at the cursor, expecting `e`,
/// without consuming anything.
pub open spec fn take_if<'a, T: StreamItem, X: Position<T>>(
    s: State<'a, T, X>,
    accepts: spec_fn(T) -> bool,
    e: Seq<ExpectedView<T>>,
) -> (Reply<T, T, X>, State<'a, T, X>) {
    if s.rest().len() > 0 && accepts(s.rest()[0]) {
        (Reply::Matched(s.rest()[0]), s.moved(1))
    } else {
        (Reply::Failed(error_expecting(s, e)), s)
    }
}

/// Parses any one item; fails with the end of input when there is none.
#[derive(Clone, Copy, Debug)]
pub struct Any;

impl<'a, T: StreamItem, X: Position<T>> Parser<'a, T, X> for Any {
    type Output = T;

    open spec fn spec_parse_lazy(&self, s: State<'a, T, X>) -> (Reply<T, T, X>, State<'a, T, X>) {
        if s.rest().len() > 0 {
            (Reply::Matched(s.rest()[0]), s.moved(1))
        } else {
            (
                Reply::Failed(
                    ErrorView {
                        unexpected: UnexpectedView::EndOfInput,
                        expected: Seq::empty(),
                        position: s.position,
                    },
                ),
                s,
            )
        }
    }

    open spec fn spec_expected(&self) -> Seq<ExpectedView<T>> {
        Seq::empty()
    }

    proof fn lemma_parse_lazy(&self, s: State<'a, T, X>) {
        lemma_advances_refl(s);
        if s.rest().len() > 0 {
            lemma_moved(s, 1);
        }
    }

    fn parse_lazy(&self, s: State<'a, T, X>) -> (r: (ParseResult<T, T, X>, State<'a, T, X>)) {
        let mut s = s;
        proof {
            self.lemma_parse_lazy(s);
        }
        match s.pop() {
            Some(t) => {
                proof {
                    t.lemma_deep_view();
                }
                (ParseResult::Matched(t), s)
            },
            None => (ParseResult::Failed(Error::eof(s.position)), s),
        }
    }

    fn expected_error(&self) -> (r: Vec<Expected<T>>) {
        let r = Vec::new();
        assert(expected_views(r@) =~= Seq::<ExpectedView<T>>::empty());
        r
    }
}

/// Parses any one item.
pub fn any() -> (r: Any) {
    Any
}

/// Parses one given item; fails without consuming on anything else.
#[derive(Clone, Copy, Debug)]
pub struct Token<T> {
    pub item: T,
}

impl<'a, T: StreamItem, X: Position<T>> Parser<'a, T, X> for Token<T> {
    type Output = T;

    open spec fn spec_parse_lazy(&self, s: State<'a, T, X>) -> (Reply<T, T, X>, State<'a, T, X>) {
        take_if(s, |t: T| t == self.item, seq![ExpectedView::Item(self.item)])
    }

    open spec fn spec_expected(&self) -> Seq<ExpectedView<T>> {
        seq![ExpectedView::Item(self.item)]
    }

    proof fn lemma_parse_lazy(&self, s: State<'a, T, X>) {
        lemma_advances_refl(s);
        if s.rest().len() > 0 {
            lemma_moved(s, 1);
        }
    }

    fn parse_lazy(&self, s: State<'a, T, X>) -> (r: (ParseResult<T, T, X>, State<'a, T, X>)) {
        let mut s = s;
        proof {
            self.lemma_parse_lazy(s);
        }
        match s.peek() {
            Some(t) => {
                if t.same(&self.item) {
                    s.pop();
                    proof {
                        t.lemma_deep_view();
                    }
                    return (ParseResult::Matched(t), s);
                }
            },
            None => {},
        }
        let e = s.new_error().expecting(Expected::Item(self.item));
        proof {
            assert(e@.expected =~= seq![ExpectedView::Item(self.item)]);
        }
        (ParseResult::Failed(e), s)
    }

    fn expected_error(&self) -> (r: Vec<Expected<T>>) {
        let r = vec![Expected::Item(self.item)];
        assert(expected_views(r@) =~= seq![ExpectedView::Item(self.item)]);
        r
    }
}

/// Parses exactly `item`.
pub fn token<T: StreamItem>(item: T) -> (r: Token<T>)
    ensures
        r.item == item,
{
    Token { item }
}

/// Parses one item that passes a predicate; fails without consuming on anything else,
/// expecting what `description` says.
#[derive(Clone, Copy, Debug)]
pub struct Cond<F> {
    pub predicate: F,
    pub description: &'static str,
}

impl<'a, T: StreamItem, X: Position<T>, F: Predicate<T>> Parser<'a, T, X> for Cond<F> {
    type Output = T;

    open spec fn spec_parse_lazy(&self, s: State<'a, T, X>) -> (Reply<T, T, X>, State<'a, T, X>) {
        take_if(
            s,
            |t: T| self.predicate.spec_test(t),
            seq![ExpectedView::Description(self.description@)],
        )
    }

    open spec fn spec_expected(&self) -> Seq<ExpectedView<T>> {
        seq![ExpectedView::Description(self.description@)]
    }

    proof fn lemma_parse_lazy(&self, s: State<'a, T, X>) {
        lemma_advances_refl(s);
        if s.rest().len() > 0 {
            lemma_moved(s, 1);
        }
    }

    fn parse_lazy(&self, s: State<'a, T, X>) -> (r: (ParseResult<T, T, X>, State<'a, T, X>)) {
        let mut s = s;
        proof {
            self.lemma_parse_lazy(s);
        }
        match s.peek() {
            Some(t) => {
                if self.predicate.test(&t) {
                    s.pop();
                    proof {
                        t.lemma_deep_view();
                    }
                    return (ParseResult::Matched(t), s);
                }
            },
            None => {},
        }
        let e = s.new_error().expecting(Expected::Description(self.description));
        proof {
            assert(e@.expected =~= seq![ExpectedView::Description(self.description@)]);
        }
        (ParseResult::Failed(e), s)
    }

    fn expected_error(&self) -> (r: Vec<Expected<T>>) {
        let r = vec![Expected::Description(self.description)];
        assert(expected_views(r@) =~= seq![ExpectedView::Description(self.description@)]);
        r
    }
}

/// Parses one item that passes `predicate`, described by `description` in errors.
pub fn cond<F>(predicate: F, description: &'static str) -> (r: Cond<F>)
    ensures
        r.predicate == predicate,
        r.description == description,
{
    Cond { predicate, description }
}

} // verus!
