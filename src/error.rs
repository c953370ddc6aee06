//! Parse errors: what was found, what was expected, and where.

use crate::item::StreamItem;
use crate::position::{Location, Position};
use crate::state::State;
use vstd::prelude::*;

verus! {

/// What a parser ran into where it failed.
#[derive(Clone, Debug, PartialEq)]
pub enum Unexpected<T> {
    /// The input ended.
    EndOfInput,
    /// An item that does not fit.
    Item(T),
    /// A range of items that does not fit.
    Range(Vec<T>),
    /// A free-form complaint, such as a failed conversion.
    Message(String),
}

/// One thing a parser would have accepted.
#[derive(Clone, Debug, PartialEq)]
pub enum Expected<T> {
    /// This exact item.
    Item(T),
    /// This exact range of items.
    Range(Vec<T>),
    /// Anything that fits a description ("an ascii digit").
    Description(&'static str),
}

/// A positioned failure: one unexpected fact and the list of what would have been accepted
/// instead. When several alternatives fail at the same place, the list holds what each of
/// them expected.
#[derive(Clone, Debug, PartialEq)]
pub struct Error<T, X> {
    pub unexpected: Unexpected<T>,
    pub expected: Vec<Expected<T>>,
    pub position: X,
}

/// The mathematical value of an [`Unexpected`].
pub enum UnexpectedView<T> {
    EndOfInput,
    Item(T),
    Range(Seq<T>),
    Message(Seq<char>),
}

/// The mathematical value of an [`Expected`].
pub enum ExpectedView<T> {
    Item(T),
    Range(Seq<T>),
    Description(Seq<char>),
}

/// The mathematical value of an [`Error`].
pub struct ErrorView<T, X> {
    pub unexpected: UnexpectedView<T>,
    pub expected: Seq<ExpectedView<T>>,
    pub position: X,
}

impl<T> View for Unexpected<T> {
    type V = UnexpectedView<T>;

    open spec fn view(&self) -> UnexpectedView<T> {
        match self {
            Unexpected::EndOfInput => UnexpectedView::EndOfInput,
            Unexpected::Item(t) => UnexpectedView::Item(*t),
            Unexpected::Range(r) => UnexpectedView::Range(r@),
            Unexpected::Message(m) => UnexpectedView::Message(m@),
        }
    }
}

impl<T> View for Expected<T> {
    type V = ExpectedView<T>;

    open spec fn view(&self) -> ExpectedView<T> {
        match self {
            Expected::Item(t) => ExpectedView::Item(*t),
            Expected::Range(r) => ExpectedView::Range(r@),
            Expected::Description(d) => ExpectedView::Description(d@),
        }
    }
}

/// The mathematical values of a list of expectations.
pub open spec fn expected_views<T>(v: Seq<Expected<T>>) -> Seq<ExpectedView<T>> {
    v.map_values(|e: Expected<T>| e@)
}

impl<T, X> View for Error<T, X> {
    type V = ErrorView<T, X>;

    open spec fn view(&self) -> ErrorView<T, X> {
        ErrorView {
            unexpected: self.unexpected@,
            expected: expected_views(self.expected@),
            position: self.position,
        }
    }
}

/// The error that two alternatives give when both failed: the one that got further wins;
/// at the same position, the expectations of both are kept, first's then second's, with
/// the first one's unexpected fact.
pub open spec fn merge<T, X: Location>(a: ErrorView<T, X>, b: ErrorView<T, X>) -> ErrorView<T, X> {
    if !b.position.spec_le(a.position) {
        b
    } else if !a.position.spec_le(b.position) {
        a
    } else {
        ErrorView { unexpected: a.unexpected, expected: a.expected + b.expected, position: a.position }
    }
}

/// Merging errors is associative, so the grouping of alternatives does not matter.
pub proof fn lemma_merge_assoc<T, X: Location>(
    a: ErrorView<T, X>,
    b: ErrorView<T, X>,
    c: ErrorView<T, X>,
)
    ensures
        merge(merge(a, b), c) == merge(a, merge(b, c)),
{
    X::lemma_total_order(a.position, b.position, c.position);
    X::lemma_total_order(b.position, c.position, a.position);
    X::lemma_total_order(c.position, a.position, b.position);
    X::lemma_total_order(a.position, c.position, b.position);
    X::lemma_total_order(b.position, a.position, c.position);
    X::lemma_total_order(c.position, b.position, a.position);
    assert((a.expected + b.expected) + c.expected =~= a.expected + (b.expected + c.expected));
}

/// Copies a slice of items into a vector.
pub fn copy_items<T: Copy>(items: &[T]) -> (r: Vec<T>)
    ensures
        r@ == items@,
{
    let mut r: Vec<T> = Vec::new();
    let mut i: usize = 0;
    while i < items.len()
        invariant
            i <= items@.len(),
            r@ == items@.subrange(0, i as int),
        decreases items@.len() - i,
    {
        r.push(items[i]);
        i = i + 1;
        assert(r@ =~= items@.subrange(0, i as int));
    }
    assert(items@.subrange(0, i as int) =~= items@);
    r
}

impl<T: Copy, X: Location> Error<T, X> {
    /// The input ended at `position`, with nothing expected yet.
    pub fn eof(position: X) -> (r: Self)
        ensures
            r@ == (ErrorView {
                unexpected: UnexpectedView::EndOfInput,
                expected: Seq::<ExpectedView<T>>::empty(),
                position,
            }),
    {
        let r = Error { unexpected: Unexpected::EndOfInput, expected: Vec::new(), position };
        assert(r@.expected =~= Seq::<ExpectedView<T>>::empty());
        r
    }

    /// The item `t` was found at `position`, with nothing expected yet.
    pub fn item(t: T, position: X) -> (r: Self)
        ensures
            r@ == (ErrorView {
                unexpected: UnexpectedView::Item(t),
                expected: Seq::<ExpectedView<T>>::empty(),
                position,
            }),
    {
        let r = Error { unexpected: Unexpected::Item(t), expected: Vec::new(), position };
        assert(r@.expected =~= Seq::<ExpectedView<T>>::empty());
        r
    }

    /// A free-form message at `position`, with nothing expected yet.
    pub fn message(m: String, position: X) -> (r: Self)
        ensures
            r@ == (ErrorView {
                unexpected: UnexpectedView::Message(m@),
                expected: Seq::<ExpectedView<T>>::empty(),
                position,
            }),
    {
        let r = Error { unexpected: Unexpected::Message(m), expected: Vec::new(), position };
        assert(r@.expected =~= Seq::<ExpectedView<T>>::empty());
        r
    }

    /// The same error, expecting `e` as well.
    pub fn expecting(self, e: Expected<T>) -> (r: Self)
        ensures
            r@ == (ErrorView { expected: self@.expected.push(e@), ..self@ }),
    {
        let mut r = self;
        r.expected.push(e);
        assert(r@.expected =~= self@.expected.push(e@));
        r
    }

    /// The same error, expecting all of `es` as well.
    pub fn expecting_all(self, es: Vec<Expected<T>>) -> (r: Self)
        ensures
            r@ == (ErrorView { expected: self@.expected + expected_views(es@), ..self@ }),
    {
        let mut r = self;
        let mut es = es;
        let ghost added = es@;
        r.expected.append(&mut es);
        assert(r@.expected =~= self@.expected + expected_views(added));
        r
    }

    /// The error of two failed alternatives: see [`merge`].
    pub fn merge(self, other: Self) -> (r: Self)
        ensures
            r@ == merge(self@, other@),
    {
        if !other.position.le(&self.position) {
            other
        } else if !self.position.le(&other.position) {
            self
        } else {
            let mut r = self;
            let mut es = other.expected;
            let ghost added = es@;
            r.expected.append(&mut es);
            assert(r@.expected =~= self@.expected + expected_views(added));
            r
        }
    }
}

/// Merges an optional error into another.
pub open spec fn merge_options<T, X: Location>(
    a: Option<ErrorView<T, X>>,
    b: Option<ErrorView<T, X>>,
) -> Option<ErrorView<T, X>> {
    match (a, b) {
        (Some(x), Some(y)) => Some(merge(x, y)),
        (Some(x), None) => Some(x),
        (None, y) => y,
    }
}

/// The errors of `es`, merged in order onto `acc`; absent ones are skipped.
pub open spec fn merge_onto<T, X: Location>(
    es: Seq<Option<ErrorView<T, X>>>,
    acc: Option<ErrorView<T, X>>,
) -> Option<ErrorView<T, X>>
    decreases es.len(),
{
    if es.len() == 0 {
        acc
    } else {
        merge_options(es[0], merge_onto(es.drop_first(), acc))
    }
}

proof fn lemma_merge_onto_push<T, X: Location>(
    es: Seq<Option<ErrorView<T, X>>>,
    e: Option<ErrorView<T, X>>,
    acc: Option<ErrorView<T, X>>,
)
    ensures
        merge_onto(es.push(e), acc) == merge_onto(es, merge_options(e, acc)),
    decreases es.len(),
{
    if es.len() == 0 {
        assert(es.push(e).drop_first() =~= Seq::<Option<ErrorView<T, X>>>::empty());
        assert(merge_onto(Seq::<Option<ErrorView<T, X>>>::empty(), acc) == acc);
        assert(merge_onto(es, merge_options(e, acc)) == merge_options(e, acc));
    } else {
        assert(es.push(e).drop_first() =~= es.drop_first().push(e));
        lemma_merge_onto_push(es.drop_first(), e, acc);
    }
}

/// The view of an optional error.
pub open spec fn option_view<T, X>(e: Option<Error<T, X>>) -> Option<ErrorView<T, X>> {
    match e {
        Some(x) => Some(x@),
        None => None,
    }
}

/// The views of a list of optional errors.
pub open spec fn option_views<T, X>(es: Seq<Option<Error<T, X>>>) -> Seq<Option<ErrorView<T, X>>> {
    es.map_values(|e: Option<Error<T, X>>| option_view(e))
}

/// The error of several failed alternatives: the present ones merged in order (see
/// [`merge`]), or none if none is present.
pub fn merge_one_of<T: Copy, X: Location>(errors: Vec<Option<Error<T, X>>>) -> (r: Option<
    Error<T, X>,
>)
    ensures
        option_view(r) == merge_onto(option_views(errors@), None),
{
    let ghost all = option_views(errors@);
    let mut errors = errors;
    let mut acc: Option<Error<T, X>> = None;
    while errors.len() > 0
        invariant
            merge_onto(option_views(errors@), option_view(acc)) == merge_onto(all, None),
        decreases errors@.len(),
    {
        let ghost before = errors@;
        let e = errors.pop().unwrap();
        proof {
            assert(before =~= errors@.push(e));
            assert(option_views(before) =~= option_views(errors@).push(option_view(e)));
            lemma_merge_onto_push(option_views(errors@), option_view(e), option_view(acc));
        }
        acc = match (e, acc) {
            (Some(x), Some(y)) => Some(x.merge(y)),
            (Some(x), None) => Some(x),
            (None, y) => y,
        };
    }
    assert(option_views(errors@) =~= Seq::<Option<ErrorView<T, X>>>::empty());
    acc
}

impl<'a, T: StreamItem, X: Position<T>> State<'a, T, X> {
    /// What the stream holds at its cursor, as the unexpected fact of an error there.
    pub open spec fn spec_found(self) -> UnexpectedView<T> {
        if self.rest().len() == 0 {
            UnexpectedView::EndOfInput
        } else {
            UnexpectedView::Item(self.rest()[0])
        }
    }

    /// An error at the cursor, reporting the next item (or the end of input) as unexpected.
    pub fn new_error(&self) -> (r: Error<T, X>)
        requires
            self.wf(),
        ensures
            r@ == (ErrorView {
                unexpected: self.spec_found(),
                expected: Seq::<ExpectedView<T>>::empty(),
                position: self.position,
            }),
    {
        match self.peek() {
            Some(t) => Error::item(t, self.position),
            None => Error::eof(self.position),
        }
    }
}

} // verus!
