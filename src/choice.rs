//! Sequencing and choice: `with`, `skip`, `optional`, `must`, `or`.

use crate::error::{lemma_merge_assoc, merge, option_view, Error, ErrorView, Expected, ExpectedView, expected_views};
use crate::item::StreamItem;
use crate::parser::{fail_as, ParseResult, Parser, Reply};
use crate::position::{Location, Position};
use crate::state::{advances_to, lemma_advances_refl, lemma_advances_trans, State};
use crate::token::error_expecting;
use vstd::prelude::*;

verus! {

/// Runs `p1` then `p2` and keeps the output of `p1`.
#[derive(Clone, Copy, Debug)]
pub struct Skip<P1, P2> {
    pub p1: P1,
    pub p2: P2,
}

impl<'a, T: StreamItem, X: Position<T>, P1: Parser<'a, T, X>, P2: Parser<'a, T, X>> Parser<
    'a,
    T,
    X,
> for Skip<P1, P2> {
    type Output = P1::Output;

    open spec fn spec_parse_lazy(&self, s: State<'a, T, X>) -> (
        Reply<<P1::Output as DeepView>::V, T, X>,
        State<'a, T, X>,
    ) {
        let (r1, t1) = self.p1.spec_parse_lazy(s);
        if r1.is_failed() {
            (r1, t1)
        } else {
            let (r2, t2) = self.p2.spec_parse_lazy(t1);
            if r2.is_failed() {
                (r2.failure(), t2)
            } else {
                (r1, t2)
            }
        }
    }

    open spec fn spec_expected(&self) -> Seq<ExpectedView<T>> {
        self.p1.spec_expected()
    }

    proof fn lemma_parse_lazy(&self, s: State<'a, T, X>) {
        self.p1.lemma_parse_lazy(s);
        let t1 = self.p1.spec_parse_lazy(s).1;
        self.p2.lemma_parse_lazy(t1);
        lemma_advances_trans(s, t1, self.p2.spec_parse_lazy(t1).1);
    }

    fn parse_lazy(&self, s: State<'a, T, X>) -> (r: (ParseResult<P1::Output, T, X>, State<'a, T, X>)) {
        proof {
            self.lemma_parse_lazy(s);
        }
        let (r1, t1) = self.p1.parse_lazy(s);
        if r1.is_failed() {
            return (r1, t1);
        }
        let (r2, t2) = self.p2.parse_lazy(t1);
        if r2.is_failed() {
            (fail_as(r2), t2)
        } else {
            (r1, t2)
        }
    }

    fn expected_error(&self) -> (r: Vec<Expected<T>>) {
        self.p1.expected_error()
    }
}

/// Parses with `p1` followed by `p2`; succeeds if both do, with the output of `p1`.
pub fn skip<P1, P2>(p1: P1, p2: P2) -> (r: Skip<P1, P2>)
    ensures
        r.p1 == p1,
        r.p2 == p2,
{
    Skip { p1, p2 }
}

/// Runs `p1` then `p2` and keeps the output of `p2`.
#[derive(Clone, Copy, Debug)]
pub struct With<P1, P2> {
    pub p1: P1,
    pub p2: P2,
}

impl<'a, T: StreamItem, X: Position<T>, P1: Parser<'a, T, X>, P2: Parser<'a, T, X>> Parser<
    'a,
    T,
    X,
> for With<P1, P2> {
    type Output = P2::Output;

    open spec fn spec_parse_lazy(&self, s: State<'a, T, X>) -> (
        Reply<<P2::Output as DeepView>::V, T, X>,
        State<'a, T, X>,
    ) {
        let (r1, t1) = self.p1.spec_parse_lazy(s);
        if r1.is_failed() {
            (r1.failure(), t1)
        } else {
            self.p2.spec_parse_lazy(t1)
        }
    }

    open spec fn spec_expected(&self) -> Seq<ExpectedView<T>> {
        self.p1.spec_expected()
    }

    proof fn lemma_parse_lazy(&self, s: State<'a, T, X>) {
        self.p1.lemma_parse_lazy(s);
        let t1 = self.p1.spec_parse_lazy(s).1;
        self.p2.lemma_parse_lazy(t1);
        lemma_advances_trans(s, t1, self.p2.spec_parse_lazy(t1).1);
    }

    fn parse_lazy(&self, s: State<'a, T, X>) -> (r: (ParseResult<P2::Output, T, X>, State<'a, T, X>)) {
        proof {
            self.lemma_parse_lazy(s);
        }
        let (r1, t1) = self.p1.parse_lazy(s);
        if r1.is_failed() {
            return (fail_as(r1), t1);
        }
        self.p2.parse_lazy(t1)
    }

    fn expected_error(&self) -> (r: Vec<Expected<T>>) {
        self.p1.expected_error()
    }
}

/// Parses with `p1` followed by `p2`; succeeds if both do, with the output of `p2`.
pub fn with<P1, P2>(p1: P1, p2: P2) -> (r: With<P1, P2>)
    ensures
        r.p1 == p1,
        r.p2 == p2,
{
    With { p1, p2 }
}

/// Runs `p`; where it fails or matches nothing, matches nothing and consumes nothing.
#[derive(Clone, Copy, Debug)]
pub struct Optional<P> {
    pub p: P,
}

impl<'a, T: StreamItem, X: Position<T>, P: Parser<'a, T, X>> Parser<'a, T, X> for Optional<P> {
    type Output = P::Output;

    open spec fn spec_parse_lazy(&self, s: State<'a, T, X>) -> (
        Reply<<P::Output as DeepView>::V, T, X>,
        State<'a, T, X>,
    ) {
        let (r, t) = self.p.spec_parse_lazy(s);
        if r is Matched {
            (r, t)
        } else {
            (Reply::NoMatch, s)
        }
    }

    open spec fn spec_expected(&self) -> Seq<ExpectedView<T>> {
        self.p.spec_expected()
    }

    proof fn lemma_parse_lazy(&self, s: State<'a, T, X>) {
        self.p.lemma_parse_lazy(s);
        lemma_advances_refl(s);
    }

    fn parse_lazy(&self, s: State<'a, T, X>) -> (r: (ParseResult<P::Output, T, X>, State<'a, T, X>)) {
        proof {
            self.lemma_parse_lazy(s);
        }
        let backup = s;
        match self.p.parse_lazy(s) {
            (ParseResult::Matched(o), t) => (ParseResult::Matched(o), t),
            _ => (ParseResult::NoMatch, backup),
        }
    }

    fn expected_error(&self) -> (r: Vec<Expected<T>>) {
        self.p.expected_error()
    }
}

/// Wraps `p` so that where it would fail, it matches nothing instead.
pub fn optional<P>(p: P) -> (r: Optional<P>)
    ensures
        r.p == p,
{
    Optional { p }
}

/// Runs `p`; where it matches nothing, fails at the cursor, expecting what `p` expects.
#[derive(Clone, Copy, Debug)]
pub struct Must<P> {
    pub p: P,
}

impl<'a, T: StreamItem, X: Position<T>, P: Parser<'a, T, X>> Parser<'a, T, X> for Must<P> {
    type Output = P::Output;

    open spec fn spec_parse_lazy(&self, s: State<'a, T, X>) -> (
        Reply<<P::Output as DeepView>::V, T, X>,
        State<'a, T, X>,
    ) {
        let (r, t) = self.p.spec_parse_lazy(s);
        if r is NoMatch {
            (Reply::Failed(error_expecting(t, self.p.spec_expected())), t)
        } else {
            (r, t)
        }
    }

    open spec fn spec_expected(&self) -> Seq<ExpectedView<T>> {
        self.p.spec_expected()
    }

    proof fn lemma_parse_lazy(&self, s: State<'a, T, X>) {
        self.p.lemma_parse_lazy(s);
    }

    fn parse_lazy(&self, s: State<'a, T, X>) -> (r: (ParseResult<P::Output, T, X>, State<'a, T, X>)) {
        proof {
            self.lemma_parse_lazy(s);
        }
        match self.p.parse_lazy(s) {
            (ParseResult::NoMatch, t) => {
                let e = t.new_error().expecting_all(self.p.expected_error());
                proof {
                    assert(e@.expected =~= self.p.spec_expected());
                }
                (ParseResult::Failed(e), t)
            },
            other => other,
        }
    }

    fn expected_error(&self) -> (r: Vec<Expected<T>>) {
        self.p.expected_error()
    }
}

/// Wraps `p` so that matching nothing is a failure.
pub fn must<P>(p: P) -> (r: Must<P>)
    ensures
        r.p == p,
{
    Must { p }
}

/// What [`Or`] does on a stream: `p1` committed, and only where it failed, `p2` lazily
/// from the same stream; where both fail, their errors merge.
pub open spec fn or_reply<'a, T: StreamItem, X: Position<T>, V>(
    r1: Reply<V, T, X>,
    t1: State<'a, T, X>,
    r2: Reply<V, T, X>,
    t2: State<'a, T, X>,
) -> (Reply<V, T, X>, State<'a, T, X>) {
    match r1 {
        Reply::Failed(e1) => match r2 {
            Reply::Failed(e2) => (Reply::Failed(merge(e1, e2)), t2),
            _ => (r2, t2),
        },
        _ => (r1, t1),
    }
}

/// Tries `p1`; where it fails, tries `p2` on the input `p1` was given.
#[derive(Clone, Copy, Debug)]
pub struct Or<P1, P2> {
    pub p1: P1,
    pub p2: P2,
}

impl<
    'a,
    T: StreamItem,
    X: Position<T>,
    P1: Parser<'a, T, X>,
    P2: Parser<'a, T, X, Output = P1::Output>,
> Parser<'a, T, X> for Or<P1, P2> {
    type Output = P1::Output;

    open spec fn spec_parse_lazy(&self, s: State<'a, T, X>) -> (
        Reply<<P1::Output as DeepView>::V, T, X>,
        State<'a, T, X>,
    ) {
        let (r1, t1) = self.p1.spec_parse_lazy(s);
        let (r2, t2) = self.p2.spec_parse_lazy(s);
        or_reply(r1, t1, r2, t2)
    }

    open spec fn spec_expected(&self) -> Seq<ExpectedView<T>> {
        self.p1.spec_expected() + self.p2.spec_expected()
    }

    proof fn lemma_parse_lazy(&self, s: State<'a, T, X>) {
        self.p1.lemma_parse_lazy(s);
        self.p2.lemma_parse_lazy(s);
    }

    fn parse_lazy(&self, s: State<'a, T, X>) -> (r: (ParseResult<P1::Output, T, X>, State<'a, T, X>)) {
        proof {
            self.lemma_parse_lazy(s);
        }
        let (r1, t1) = self.p1.parse(s);
        match r1 {
            ParseResult::Failed(e1) => {
                let (r2, t2) = self.p2.parse_lazy(s);
                match r2 {
                    ParseResult::Failed(e2) => (ParseResult::Failed(e1.merge(e2)), t2),
                    _ => (r2, t2),
                }
            },
            _ => (r1, t1),
        }
    }

    fn expected_error(&self) -> (r: Vec<Expected<T>>) {
        let mut r = self.p1.expected_error();
        let mut r2 = self.p2.expected_error();
        let ghost v1 = r@;
        let ghost v2 = r2@;
        r.append(&mut r2);
        assert(expected_views(r@) =~= expected_views(v1) + expected_views(v2));
        r
    }
}

/// Tries `p1`, then, where it failed, `p2`.
pub fn or<P1, P2>(p1: P1, p2: P2) -> (r: Or<P1, P2>)
    ensures
        r.p1 == p1,
        r.p2 == p2,
{
    Or { p1, p2 }
}

/// What [`Choice`] does on a stream: the alternatives folded with [`Or`] from the right,
/// so `choice_from([a, b, c], s)` is what `or(a, or(b, c))` does. With no alternatives it
/// fails at the cursor, expecting nothing.
pub open spec fn choice_from<'a, T: StreamItem, X: Position<T>, P: Parser<'a, T, X>>(
    alts: Seq<P>,
    s: State<'a, T, X>,
) -> (Reply<<P::Output as DeepView>::V, T, X>, State<'a, T, X>)
    decreases alts.len(),
{
    if alts.len() == 0 {
        (Reply::Failed(error_expecting(s, Seq::empty())), s)
    } else if alts.len() == 1 {
        alts[0].spec_parse_lazy(s)
    } else {
        let (r1, t1) = alts[0].spec_parse_lazy(s);
        let (r2, t2) = choice_from(alts.drop_first(), s);
        or_reply(r1, t1, r2, t2)
    }
}

/// The expectations of all the alternatives, in order.
pub open spec fn choice_expected<'a, T: StreamItem, X: Position<T>, P: Parser<'a, T, X>>(
    alts: Seq<P>,
) -> Seq<ExpectedView<T>>
    decreases alts.len(),
{
    if alts.len() == 0 {
        Seq::empty()
    } else {
        alts[0].spec_expected() + choice_expected(alts.drop_first())
    }
}

proof fn lemma_choice_from<'a, T: StreamItem, X: Position<T>, P: Parser<'a, T, X>>(
    alts: Seq<P>,
    s: State<'a, T, X>,
)
    requires
        s.wf(),
    ensures
        advances_to(s, choice_from(alts, s).1),
        choice_from(alts, s).1.wf(),
    decreases alts.len(),
{
    lemma_advances_refl(s);
    if alts.len() > 0 {
        alts[0].lemma_parse_lazy(s);
    }
    if alts.len() > 1 {
        lemma_choice_from(alts.drop_first(), s);
    }
}

proof fn lemma_choice_expected_push<'a, T: StreamItem, X: Position<T>, P: Parser<'a, T, X>>(
    alts: Seq<P>,
    i: int,
)
    requires
        0 <= i < alts.len(),
    ensures
        choice_expected(alts.take(i + 1)) == choice_expected(alts.take(i)) + alts[i].spec_expected(),
    decreases i,
{
    if i == 0 {
        assert(alts.take(1).drop_first() =~= Seq::<P>::empty());
        assert(alts.take(0) =~= Seq::<P>::empty());
        assert(alts.take(1)[0] == alts[0]);
        assert(choice_expected(alts.take(1).drop_first()) == Seq::<ExpectedView<T>>::empty());
        assert(choice_expected(alts.take(1)) =~= alts[0].spec_expected());
    } else {
        lemma_choice_expected_push(alts.drop_first(), i - 1);
        assert(alts.take(i + 1).drop_first() =~= alts.drop_first().take(i));
        assert(alts.take(i).drop_first() =~= alts.drop_first().take(i - 1));
        assert(alts.take(i + 1)[0] == alts[0]);
        assert(alts.take(i)[0] == alts[0]);
        assert(choice_expected(alts.take(i + 1)) =~= choice_expected(alts.take(i))
            + alts[i].spec_expected());
    }
}

/// A failure met so far, merged into what the remaining alternatives give.
pub open spec fn after_failures<'a, V, T, X: Location>(
    acc: Option<ErrorView<T, X>>,
    rest: (Reply<V, T, X>, State<'a, T, X>),
) -> (Reply<V, T, X>, State<'a, T, X>) {
    match acc {
        None => rest,
        Some(e) => match rest.0 {
            Reply::Failed(e2) => (Reply::Failed(merge(e, e2)), rest.1),
            _ => rest,
        },
    }
}

fn merge_into<T: Copy, X: Location>(acc: Option<Error<T, X>>, e: Error<T, X>) -> (r: Error<T, X>)
    ensures
        acc is None ==> r@ == e@,
        acc matches Some(a) ==> r@ == merge(a@, e@),
{
    match acc {
        None => e,
        Some(a) => a.merge(e),
    }
}

/// Tries each alternative in turn, from the input they are all given, and gives the
/// first result that does not fail; where all fail, their errors merge.
#[derive(Clone, Debug)]
pub struct Choice<P> {
    pub alternatives: Vec<P>,
}

impl<'a, T: StreamItem, X: Position<T>, P: Parser<'a, T, X>> Parser<'a, T, X> for Choice<P> {
    type Output = P::Output;

    open spec fn spec_parse_lazy(&self, s: State<'a, T, X>) -> (
        Reply<<P::Output as DeepView>::V, T, X>,
        State<'a, T, X>,
    ) {
        choice_from(self.alternatives@, s)
    }

    open spec fn spec_expected(&self) -> Seq<ExpectedView<T>> {
        choice_expected(self.alternatives@)
    }

    proof fn lemma_parse_lazy(&self, s: State<'a, T, X>) {
        lemma_choice_from(self.alternatives@, s);
    }

    fn parse_lazy(&self, s: State<'a, T, X>) -> (r: (ParseResult<P::Output, T, X>, State<'a, T, X>)) {
        proof {
            self.lemma_parse_lazy(s);
        }
        let ghost alts = self.alternatives@;
        let n = self.alternatives.len();
        if n == 0 {
            return (ParseResult::Failed(s.new_error()), s);
        }
        let mut acc: Option<Error<T, X>> = None;
        let mut i: usize = 0;
        proof {
            assert(alts.skip(0) =~= alts);
        }
        while i + 1 < n
            invariant
                alts == self.alternatives@,
                n == alts.len(),
                n > 0,
                i + 1 <= n,
                s.wf(),
                choice_from(alts, s) == after_failures(
                    option_view(acc),
                    choice_from(alts.skip(i as int), s),
                ),
            decreases n - i,
        {
            let (r, t) = self.alternatives[i].parse(s);
            proof {
                let rest = alts.skip(i as int);
                assert(rest[0] == alts[i as int]);
                assert(rest.drop_first() =~= alts.skip(i + 1));
                let acc_view = option_view(acc);
                let (r2, t2) = choice_from(alts.skip(i + 1), s);
                if r.model() is Failed && r2 is Failed && acc is Some {
                    lemma_merge_assoc(
                        acc_view->Some_0,
                        r.model()->Failed_0,
                        r2->Failed_0,
                    );
                }
            }
            match r {
                ParseResult::Failed(e) => {
                    acc = Some(merge_into(acc, e));
                },
                _ => {
                    return (r, t);
                },
            }
            i = i + 1;
        }
        proof {
            assert(alts.skip(i as int) =~= seq![alts[i as int]]);
        }
        let (r, t) = self.alternatives[i].parse_lazy(s);
        match r {
            ParseResult::Failed(e) => (ParseResult::Failed(merge_into(acc, e)), t),
            _ => (r, t),
        }
    }

    fn expected_error(&self) -> (r: Vec<Expected<T>>) {
        let ghost alts = self.alternatives@;
        let mut r: Vec<Expected<T>> = Vec::new();
        let mut i: usize = 0;
        proof {
            assert(alts.take(0) =~= Seq::<P>::empty());
            assert(expected_views(r@) =~= Seq::<ExpectedView<T>>::empty());
        }
        while i < self.alternatives.len()
            invariant
                alts == self.alternatives@,
                i <= alts.len(),
                expected_views(r@) == choice_expected(alts.take(i as int)),
            decreases alts.len() - i,
        {
            let mut more = self.alternatives[i].expected_error();
            let ghost before = r@;
            let ghost added = more@;
            r.append(&mut more);
            proof {
                lemma_choice_expected_push(alts, i as int);
                assert(expected_views(r@) =~= expected_views(before) + expected_views(added));
            }
            i = i + 1;
        }
        proof {
            assert(alts.take(i as int) =~= alts);
        }
        r
    }
}

/// Tries each of `alternatives` in turn.
pub fn choice<P>(alternatives: Vec<P>) -> (r: Choice<P>)
    ensures
        r.alternatives@ == alternatives@,
{
    Choice { alternatives }
}

} // verus!
