//! Combinators that rewind, relabel or transform other parsers.

use crate::error::{Error, ErrorView, Expected, ExpectedView, UnexpectedView, expected_views};
use crate::item::StreamItem;
use crate::parser::{fail_as, ParseResult, Parser, Reply};
use crate::position::Position;
use crate::state::{advances_to, lemma_advances_refl, lemma_advances_trans, State};
use crate::text::{decimal_u64, parse_u64, u64_parse_error_text, string_of, Text};
use vstd::prelude::*;

verus! {

/// Runs `p`, rewinding the stream if it fails, even inside a lazy sequence.
#[derive(Clone, Copy, Debug)]
pub struct Attempt<P> {
    pub p: P,
}

impl<'a, T: StreamItem, X: Position<T>, P: Parser<'a, T, X>> Parser<'a, T, X> for Attempt<P> {
    type Output = P::Output;

    open spec fn spec_parse_lazy(&self, s: State<'a, T, X>) -> (
        Reply<<P::Output as DeepView>::V, T, X>,
        State<'a, T, X>,
    ) {
        let (r, t) = self.p.spec_parse_lazy(s);
        if r.is_failed() {
            (r, s)
        } else {
            (r, t)
        }
    }

    open spec fn spec_expected(&self) -> Seq<ExpectedView<T>> {
        self.p.spec_expected()
    }

    proof fn lemma_parse_lazy(&self, s: State<'a, T, X>) {
        self.p.lemma_parse_lazy(s);
        lemma_advances_refl(s);
    }

    fn parse_lazy(&self, s: State<'a, T, X>) -> (r: (ParseResult<P::Output, T, X>, State<'a, T, X>)) {
        self.p.parse(s)
    }

    fn expected_error(&self) -> (r: Vec<Expected<T>>) {
        self.p.expected_error()
    }
}

/// Wraps `p` so that a failure never leaves input consumed.
pub fn attempt<P>(p: P) -> (r: Attempt<P>)
    ensures
        r.p == p,
{
    Attempt { p }
}

/// Runs `p` and always rewinds the stream: a zero-width look at what follows.
#[derive(Clone, Copy, Debug)]
pub struct Lookahead<P> {
    pub p: P,
}

impl<'a, T: StreamItem, X: Position<T>, P: Parser<'a, T, X>> Parser<'a, T, X> for Lookahead<P> {
    type Output = P::Output;

    open spec fn spec_parse_lazy(&self, s: State<'a, T, X>) -> (
        Reply<<P::Output as DeepView>::V, T, X>,
        State<'a, T, X>,
    ) {
        (self.p.spec_parse_lazy(s).0, s)
    }

    open spec fn spec_expected(&self) -> Seq<ExpectedView<T>> {
        self.p.spec_expected()
    }

    proof fn lemma_parse_lazy(&self, s: State<'a, T, X>) {
        lemma_advances_refl(s);
    }

    fn parse_lazy(&self, s: State<'a, T, X>) -> (r: (ParseResult<P::Output, T, X>, State<'a, T, X>)) {
        proof {
            lemma_advances_refl(s);
        }
        let start = s;
        let (r, _) = self.p.parse_lazy(s);
        (r, start)
    }

    fn expected_error(&self) -> (r: Vec<Expected<T>>) {
        self.p.expected_error()
    }
}

/// Wraps `p` so that it consumes nothing, whether it matches or fails.
pub fn lookahead<P>(p: P) -> (r: Lookahead<P>)
    ensures
        r.p == p,
{
    Lookahead { p }
}

/// The expectations that a description stands for: the description, or nothing.
pub open spec fn described<T>(d: Option<&'static str>) -> Seq<ExpectedView<T>> {
    match d {
        Some(text) => seq![ExpectedView::Description(text@)],
        None => Seq::empty(),
    }
}

fn described_exec<T>(d: Option<&'static str>) -> (r: Vec<Expected<T>>)
    ensures
        expected_views(r@) == described::<T>(d),
{
    match d {
        Some(text) => {
            let r = vec![Expected::Description(text)];
            assert(expected_views(r@) =~= described::<T>(d));
            r
        },
        None => {
            let r = Vec::new();
            assert(expected_views(r@) =~= described::<T>(d));
            r
        },
    }
}

/// Runs `p`, and where it fails without consuming anything, states what was expected as
/// `description` (or as nothing) in place of what `p` expected.
#[derive(Clone, Copy, Debug)]
pub struct Expect<P> {
    pub p: P,
    pub description: Option<&'static str>,
}

impl<'a, T: StreamItem, X: Position<T>, P: Parser<'a, T, X>> Parser<'a, T, X> for Expect<P> {
    type Output = P::Output;

    open spec fn spec_parse_lazy(&self, s: State<'a, T, X>) -> (
        Reply<<P::Output as DeepView>::V, T, X>,
        State<'a, T, X>,
    ) {
        let (r, t) = self.p.spec_parse_lazy(s);
        match r {
            Reply::Failed(e) => if t.offset == s.offset {
                (Reply::Failed(ErrorView { expected: described(self.description), ..e }), t)
            } else {
                (r, t)
            },
            _ => (r, t),
        }
    }

    open spec fn spec_expected(&self) -> Seq<ExpectedView<T>> {
        described(self.description)
    }

    proof fn lemma_parse_lazy(&self, s: State<'a, T, X>) {
        self.p.lemma_parse_lazy(s);
    }

    fn parse_lazy(&self, s: State<'a, T, X>) -> (r: (ParseResult<P::Output, T, X>, State<'a, T, X>)) {
        proof {
            self.p.lemma_parse_lazy(s);
        }
        match self.p.parse_lazy(s) {
            (ParseResult::Failed(e), t) => {
                if t.offset == s.offset {
                    let e2 = Error {
                        unexpected: e.unexpected,
                        expected: described_exec(self.description),
                        position: e.position,
                    };
                    (ParseResult::Failed(e2), t)
                } else {
                    (ParseResult::Failed(e), t)
                }
            },
            other => other,
        }
    }

    fn expected_error(&self) -> (r: Vec<Expected<T>>) {
        described_exec(self.description)
    }
}

/// Wraps `p` so that, failing at its start, it expects `description`.
pub fn expect<P>(p: P, description: &'static str) -> (r: Expect<P>)
    ensures
        r.p == p,
        r.description == Some(description),
{
    Expect { p, description: Some(description) }
}

/// Wraps `p` so that, failing at its start, it expects nothing in particular.
pub fn no_expect<P>(p: P) -> (r: Expect<P>)
    ensures
        r.p == p,
        r.description is None,
{
    Expect { p, description: None }
}

/// A function on outputs, with its specification.
pub trait Transform<A: DeepView> {
    type Out: DeepView;

    spec fn spec_apply(&self, a: A::V) -> <Self::Out as DeepView>::V;

    fn apply(&self, a: A) -> (b: Self::Out)
        ensures
            b.deep_view() == self.spec_apply(a.deep_view()),
    ;
}

/// Puts an output into a vector of its own.
#[derive(Clone, Copy, Debug)]
pub struct Wrap;

impl<A: DeepView> Transform<A> for Wrap {
    type Out = Vec<A>;

    open spec fn spec_apply(&self, a: A::V) -> Seq<A::V> {
        seq![a]
    }

    fn apply(&self, a: A) -> (b: Vec<A>) {
        let b = vec![a];
        assert(b.deep_view() =~= seq![a.deep_view()]);
        b
    }
}

/// Turns a run of characters into a `String`.
#[derive(Clone, Copy, Debug)]
pub struct Collect;

impl<A: Text> Transform<A> for Collect {
    type Out = String;

    open spec fn spec_apply(&self, a: Seq<char>) -> Seq<char> {
        a
    }

    fn apply(&self, a: A) -> (b: String) {
        string_of(a.chars())
    }
}

/// Concatenates a vector of vectors into one vector, in order.
#[derive(Clone, Copy, Debug)]
pub struct Flatten;

impl<O: Copy + DeepView> Transform<Vec<Vec<O>>> for Flatten {
    type Out = Vec<O>;

    open spec fn spec_apply(&self, a: Seq<Seq<O::V>>) -> Seq<O::V> {
        a.flatten()
    }

    fn apply(&self, a: Vec<Vec<O>>) -> (b: Vec<O>) {
        let ghost dv = a.deep_view();
        let mut b: Vec<O> = Vec::new();
        let mut i: usize = 0;
        assert(dv.take(0) =~= Seq::<Seq<O::V>>::empty());
        assert(b.deep_view() =~= dv.take(0).flatten());
        while i < a.len()
            invariant
                dv == a.deep_view(),
                i <= a@.len(),
                b.deep_view() == dv.take(i as int).flatten(),
            decreases a@.len() - i,
        {
            let mut j: usize = 0;
            let ghost before = b.deep_view();
            assert(before + dv[i as int].take(0) =~= before);
            while j < a[i].len()
                invariant
                    dv == a.deep_view(),
                    i < a@.len(),
                    j <= a@[i as int]@.len(),
                    before == dv.take(i as int).flatten(),
                    b.deep_view() == before + dv[i as int].take(j as int),
                decreases a@[i as int]@.len() - j,
            {
                let ghost prev = b.deep_view();
                b.push(a[i][j]);
                assert(b.deep_view() =~= prev.push(a@[i as int]@[j as int].deep_view()));
                assert(dv[i as int].take(j + 1) =~= dv[i as int].take(j as int).push(
                    a@[i as int]@[j as int].deep_view(),
                ));
                j = j + 1;
            }
            proof {
                assert(dv[i as int].take(j as int) =~= dv[i as int]);
                dv.take(i as int).lemma_flatten_push(dv[i as int]);
                assert(dv.take(i as int).push(dv[i as int]) =~= dv.take(i + 1));
            }
            i = i + 1;
        }
        assert(dv.take(i as int) =~= dv);
        b
    }
}

/// Runs `p` and transforms what it matched with `f`.
#[derive(Clone, Copy, Debug)]
pub struct Mapped<P, F> {
    pub p: P,
    pub f: F,
}

impl<
    'a,
    T: StreamItem,
    X: Position<T>,
    P: Parser<'a, T, X>,
    F: Transform<P::Output>,
> Parser<'a, T, X> for Mapped<P, F> {
    type Output = F::Out;

    open spec fn spec_parse_lazy(&self, s: State<'a, T, X>) -> (
        Reply<<F::Out as DeepView>::V, T, X>,
        State<'a, T, X>,
    ) {
        let (r, t) = self.p.spec_parse_lazy(s);
        match r {
            Reply::Matched(v) => (Reply::Matched(self.f.spec_apply(v)), t),
            _ => (r.failure(), t),
        }
    }

    open spec fn spec_expected(&self) -> Seq<ExpectedView<T>> {
        self.p.spec_expected()
    }

    proof fn lemma_parse_lazy(&self, s: State<'a, T, X>) {
        self.p.lemma_parse_lazy(s);
    }

    fn parse_lazy(&self, s: State<'a, T, X>) -> (r: (ParseResult<F::Out, T, X>, State<'a, T, X>)) {
        match self.p.parse_lazy(s) {
            (ParseResult::Matched(o), t) => (ParseResult::Matched(self.f.apply(o)), t),
            (other, t) => (fail_as(other), t),
        }
    }

    fn expected_error(&self) -> (r: Vec<Expected<T>>) {
        self.p.expected_error()
    }
}

/// Transforms what `p` matches with `f`.
pub fn map<P, F>(p: P, f: F) -> (r: Mapped<P, F>)
    ensures
        r.p == p,
        r.f == f,
{
    Mapped { p, f }
}

/// Puts what `p` matches into a vector of its own.
pub fn wrap<P>(p: P) -> (r: Mapped<P, Wrap>)
    ensures
        r.p == p,
{
    Mapped { p, f: Wrap }
}

/// Concatenates the vectors that `p` matches into one.
pub fn flatten<P>(p: P) -> (r: Mapped<P, Flatten>)
    ensures
        r.p == p,
{
    Mapped { p, f: Flatten }
}

/// Turns the characters that `p` matches into a `String`.
pub fn collect<P>(p: P) -> (r: Mapped<P, Collect>)
    ensures
        r.p == p,
{
    Mapped { p, f: Collect }
}

/// What runs after a parser has matched: it takes the output and the stream and gives a
/// fresh result.
pub trait Continuation<'a, T: StreamItem, X: Position<T>, A: DeepView> {
    type Out: DeepView;

    spec fn spec_call(&self, a: A::V, s: State<'a, T, X>) -> (
        Reply<<Self::Out as DeepView>::V, T, X>,
        State<'a, T, X>,
    );

    proof fn lemma_call(&self, a: A::V, s: State<'a, T, X>)
        requires
            s.wf(),
        ensures
            advances_to(s, self.spec_call(a, s).1),
            self.spec_call(a, s).1.wf(),
    ;

    fn call(&self, a: A, s: State<'a, T, X>) -> (r: (ParseResult<Self::Out, T, X>, State<'a, T, X>))
        requires
            s.wf(),
        ensures
            (r.0.model(), r.1) == self.spec_call(a.deep_view(), s),
    ;
}

/// What a conversion of decimal text gives at stream `s`: the number, or the conversion's
/// message at the position of `s`.
pub open spec fn decimal_reply<'a, T: StreamItem, X: Position<T>>(
    text: Seq<char>,
    s: State<'a, T, X>,
) -> Reply<u64, T, X> {
    match decimal_u64(text) {
        Some(n) => Reply::Matched(n),
        None => Reply::Failed(
            ErrorView {
                unexpected: UnexpectedView::Message(u64_parse_error_text(text)),
                expected: Seq::empty(),
                position: s.position,
            },
        ),
    }
}

/// The result of a conversion at stream `s`: the number, or a failure carrying the
/// conversion's message at the position of `s`.
pub fn conversion_result<'a, T: StreamItem, X: Position<T>>(
    c: Result<u64, String>,
    s: &State<'a, T, X>,
) -> (r: ParseResult<u64, T, X>)
    ensures
        c matches Ok(n) ==> r.model() == Reply::<u64, T, X>::Matched(n),
        c matches Err(m) ==> r.model() == Reply::<u64, T, X>::Failed(
            ErrorView {
                unexpected: UnexpectedView::Message(m@),
                expected: Seq::empty(),
                position: s.position,
            },
        ),
{
    match c {
        Ok(n) => ParseResult::Matched(n),
        Err(m) => ParseResult::Failed(Error::message(m, s.position)),
    }
}

/// Converts decimal text at stream `s`; see [`decimal_reply`].
pub fn convert_decimal<'a, T: StreamItem, X: Position<T>>(text: &[char], s: &State<'a, T, X>) -> (r:
    ParseResult<u64, T, X>)
    ensures
        r.model() == decimal_reply(text@, *s),
{
    let text = string_of(text);
    conversion_result(parse_u64(text.as_str()), s)
}

/// Reads matched text as an unsigned decimal number.
#[derive(Clone, Copy, Debug)]
pub struct Decimal;

impl<'a, T: StreamItem, X: Position<T>, A: Text> Continuation<'a, T, X, A> for Decimal {
    type Out = u64;

    open spec fn spec_call(&self, a: Seq<char>, s: State<'a, T, X>) -> (Reply<u64, T, X>, State<'a, T, X>) {
        (decimal_reply(a, s), s)
    }

    proof fn lemma_call(&self, a: Seq<char>, s: State<'a, T, X>) {
        lemma_advances_refl(s);
    }

    fn call(&self, a: A, s: State<'a, T, X>) -> (r: (ParseResult<u64, T, X>, State<'a, T, X>)) {
        (convert_decimal(a.chars(), &s), s)
    }
}

impl<'a, T: StreamItem, X: Position<T>, A: Text> Continuation<'a, T, X, Option<A>> for Decimal {
    type Out = u64;

    open spec fn spec_call(&self, a: Option<Seq<char>>, s: State<'a, T, X>) -> (
        Reply<u64, T, X>,
        State<'a, T, X>,
    ) {
        match a {
            Some(text) => (decimal_reply(text, s), s),
            None => (Reply::NoMatch, s),
        }
    }

    proof fn lemma_call(&self, a: Option<Seq<char>>, s: State<'a, T, X>) {
        lemma_advances_refl(s);
    }

    fn call(&self, a: Option<A>, s: State<'a, T, X>) -> (r: (ParseResult<u64, T, X>, State<'a, T, X>)) {
        match a {
            Some(text) => (convert_decimal(text.chars(), &s), s),
            None => (ParseResult::NoMatch, s),
        }
    }
}

/// Accepts a number only within `lo..=hi`; anything else fails with a message at the cursor.
#[derive(Clone, Copy, Debug)]
pub struct InRange {
    pub lo: u64,
    pub hi: u64,
}

impl<'a, T: StreamItem, X: Position<T>> Continuation<'a, T, X, u64> for InRange {
    type Out = u64;

    open spec fn spec_call(&self, a: u64, s: State<'a, T, X>) -> (Reply<u64, T, X>, State<'a, T, X>) {
        if self.lo <= a <= self.hi {
            (Reply::Matched(a), s)
        } else {
            (
                Reply::Failed(
                    ErrorView {
                        unexpected: UnexpectedView::Message("number out of range"@),
                        expected: Seq::empty(),
                        position: s.position,
                    },
                ),
                s,
            )
        }
    }

    proof fn lemma_call(&self, a: u64, s: State<'a, T, X>) {
        lemma_advances_refl(s);
    }

    fn call(&self, a: u64, s: State<'a, T, X>) -> (r: (ParseResult<u64, T, X>, State<'a, T, X>)) {
        if self.lo <= a && a <= self.hi {
            (ParseResult::Matched(a), s)
        } else {
            let m = String::from_str("number out of range");
            (ParseResult::Failed(Error::message(m, s.position)), s)
        }
    }
}

/// A failure of a continuation after `p` matched, with `p`'s declared expectations added
/// where it states none of its own.
pub open spec fn with_fallback<V, T, X>(r: Reply<V, T, X>, fallback: Seq<ExpectedView<T>>) -> Reply<
    V,
    T,
    X,
> {
    match r {
        Reply::Failed(e) => if e.expected.len() == 0 {
            Reply::Failed(ErrorView { expected: fallback, ..e })
        } else {
            r
        },
        _ => r,
    }
}

/// Runs `p`, then hands what it matched, with the stream, to `f`.
#[derive(Clone, Copy, Debug)]
pub struct AndThen<P, F> {
    pub p: P,
    pub f: F,
}

impl<
    'a,
    T: StreamItem,
    X: Position<T>,
    P: Parser<'a, T, X>,
    F: Continuation<'a, T, X, P::Output>,
> Parser<'a, T, X> for AndThen<P, F> {
    type Output = F::Out;

    open spec fn spec_parse_lazy(&self, s: State<'a, T, X>) -> (
        Reply<<F::Out as DeepView>::V, T, X>,
        State<'a, T, X>,
    ) {
        let (r, t) = self.p.spec_parse_lazy(s);
        match r {
            Reply::Matched(v) => {
                let (r2, t2) = self.f.spec_call(v, t);
                (with_fallback(r2, self.p.spec_expected()), t2)
            },
            _ => (r.failure(), t),
        }
    }

    open spec fn spec_expected(&self) -> Seq<ExpectedView<T>> {
        self.p.spec_expected()
    }

    proof fn lemma_parse_lazy(&self, s: State<'a, T, X>) {
        self.p.lemma_parse_lazy(s);
        let (r, t) = self.p.spec_parse_lazy(s);
        if r is Matched {
            self.f.lemma_call(r->Matched_0, t);
            lemma_advances_trans(s, t, self.f.spec_call(r->Matched_0, t).1);
        }
    }

    fn parse_lazy(&self, s: State<'a, T, X>) -> (r: (ParseResult<F::Out, T, X>, State<'a, T, X>)) {
        proof {
            self.lemma_parse_lazy(s);
        }
        match self.p.parse_lazy(s) {
            (ParseResult::Matched(o), t) => {
                match self.f.call(o, t) {
                    (ParseResult::Failed(e), t2) => {
                        if e.expected.len() == 0 {
                            let e2 = e.expecting_all(self.p.expected_error());
                            assert(e2@.expected =~= self.p.spec_expected());
                            (ParseResult::Failed(e2), t2)
                        } else {
                            (ParseResult::Failed(e), t2)
                        }
                    },
                    other => other,
                }
            },
            (other, t) => (fail_as(other), t),
        }
    }

    fn expected_error(&self) -> (r: Vec<Expected<T>>) {
        self.p.expected_error()
    }
}

/// Runs `p`, then `f` on what it matched.
pub fn and_then<P, F>(p: P, f: F) -> (r: AndThen<P, F>)
    ensures
        r.p == p,
        r.f == f,
{
    AndThen { p, f }
}

/// The output of a reply that did not fail: the value, or nothing.
pub open spec fn output_of<V, T, X>(r: Reply<V, T, X>) -> Option<V> {
    match r {
        Reply::Matched(v) => Some(v),
        _ => None,
    }
}

/// Runs `p`, then, unless it failed, hands what it matched (or that it matched nothing),
/// with the stream, to `f`.
#[derive(Clone, Copy, Debug)]
pub struct Bind<P, F> {
    pub p: P,
    pub f: F,
}

impl<
    'a,
    T: StreamItem,
    X: Position<T>,
    P: Parser<'a, T, X>,
    F: Continuation<'a, T, X, Option<P::Output>>,
> Parser<'a, T, X> for Bind<P, F> {
    type Output = F::Out;

    open spec fn spec_parse_lazy(&self, s: State<'a, T, X>) -> (
        Reply<<F::Out as DeepView>::V, T, X>,
        State<'a, T, X>,
    ) {
        let (r, t) = self.p.spec_parse_lazy(s);
        if r.is_failed() {
            (r.failure(), t)
        } else {
            self.f.spec_call(output_of(r), t)
        }
    }

    open spec fn spec_expected(&self) -> Seq<ExpectedView<T>> {
        self.p.spec_expected()
    }

    proof fn lemma_parse_lazy(&self, s: State<'a, T, X>) {
        self.p.lemma_parse_lazy(s);
        let (r, t) = self.p.spec_parse_lazy(s);
        if !r.is_failed() {
            self.f.lemma_call(output_of(r), t);
            lemma_advances_trans(s, t, self.f.spec_call(output_of(r), t).1);
        }
    }

    fn parse_lazy(&self, s: State<'a, T, X>) -> (r: (ParseResult<F::Out, T, X>, State<'a, T, X>)) {
        proof {
            self.lemma_parse_lazy(s);
        }
        match self.p.parse_lazy(s) {
            (ParseResult::Matched(o), t) => {
                let ghost v = o.deep_view();
                let a = Some(o);
                assert(a.deep_view() == Some(v));
                self.f.call(a, t)
            },
            (ParseResult::NoMatch, t) => {
                let a: Option<P::Output> = None;
                assert(a.deep_view() == None::<<P::Output as DeepView>::V>);
                self.f.call(a, t)
            },
            (other, t) => (fail_as(other), t),
        }
    }

    fn expected_error(&self) -> (r: Vec<Expected<T>>) {
        self.p.expected_error()
    }
}

/// Runs `p`, then `f` on what it gave, unless it failed.
pub fn bind<P, F>(p: P, f: F) -> (r: Bind<P, F>)
    ensures
        r.p == p,
        r.f == f,
{
    Bind { p, f }
}

/// Runs `p` and reads the text it matched as an unsigned decimal number; a text that is
/// not one fails with the conversion's message, at the position after the text.
#[derive(Clone, Copy, Debug)]
pub struct FromStr<P> {
    pub p: P,
}

impl<'a, T: StreamItem, X: Position<T>, P: Parser<'a, T, X>> Parser<'a, T, X> for FromStr<P> where
    P::Output: Text,
 {
    type Output = u64;

    open spec fn spec_parse_lazy(&self, s: State<'a, T, X>) -> (Reply<u64, T, X>, State<'a, T, X>) {
        let (r, t) = self.p.spec_parse_lazy(s);
        match r {
            Reply::Matched(v) => (decimal_reply(v, t), t),
            _ => (r.failure(), t),
        }
    }

    open spec fn spec_expected(&self) -> Seq<ExpectedView<T>> {
        Seq::empty()
    }

    proof fn lemma_parse_lazy(&self, s: State<'a, T, X>) {
        self.p.lemma_parse_lazy(s);
    }

    fn parse_lazy(&self, s: State<'a, T, X>) -> (r: (ParseResult<u64, T, X>, State<'a, T, X>)) {
        match self.p.parse_lazy(s) {
            (ParseResult::Matched(o), t) => (convert_decimal(o.chars(), &t), t),
            (other, t) => (fail_as(other), t),
        }
    }

    fn expected_error(&self) -> (r: Vec<Expected<T>>) {
        let r = Vec::new();
        assert(expected_views(r@) =~= Seq::<ExpectedView<T>>::empty());
        r
    }
}

/// Reads the text that `p` matches as an unsigned decimal number.
pub fn from_str<P>(p: P) -> (r: FromStr<P>)
    ensures
        r.p == p,
{
    FromStr { p }
}

} // verus!
