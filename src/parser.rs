//! The parser contract: lazy evaluation, committed evaluation, and their results.

use crate::error::{Error, ErrorView, Expected, ExpectedView, expected_views};
use crate::item::StreamItem;
use crate::position::Position;
use crate::state::{advances_to, State};
use vstd::prelude::*;

verus! {

/// The outcome of running a parser.
#[derive(Clone, Debug, PartialEq)]
pub enum ParseResult<O, T, X> {
    /// The parser consumed input and produced a value.
    Matched(O),
    /// The parser legitimately matched nothing.
    NoMatch,
    /// The parser failed.
    Failed(Error<T, X>),
}

/// The mathematical value of a [`ParseResult`], with the output taken by its deep view.
pub enum Reply<V, T, X> {
    Matched(V),
    NoMatch,
    Failed(ErrorView<T, X>),
}

impl<V, T, X> Reply<V, T, X> {
    pub open spec fn is_failed(self) -> bool {
        self is Failed
    }

    /// A failure, carried over to another output type; `NoMatch` for anything else.
    pub open spec fn failure<W>(self) -> Reply<W, T, X> {
        match self {
            Reply::Failed(e) => Reply::Failed(e),
            _ => Reply::NoMatch,
        }
    }
}

impl<O: DeepView, T, X> ParseResult<O, T, X> {
    pub open spec fn model(self) -> Reply<O::V, T, X> {
        match self {
            ParseResult::Matched(o) => Reply::Matched(o.deep_view()),
            ParseResult::NoMatch => Reply::NoMatch,
            ParseResult::Failed(e) => Reply::Failed(e@),
        }
    }

    /// Whether this is a failure.
    pub fn is_failed(&self) -> (r: bool)
        ensures
            r == self.model().is_failed(),
    {
        match self {
            ParseResult::Failed(_) => true,
            _ => false,
        }
    }

    /// The result as a `Result`: the output, if any, or the error.
    pub fn result(self) -> (r: Result<Option<O>, Error<T, X>>)
        ensures
            self matches ParseResult::Matched(o) ==> r == Ok::<Option<O>, Error<T, X>>(Some(o)),
            self matches ParseResult::NoMatch ==> r == Ok::<Option<O>, Error<T, X>>(None),
            self matches ParseResult::Failed(e) ==> r == Err::<Option<O>, Error<T, X>>(e),
    {
        match self {
            ParseResult::Matched(o) => Ok(Some(o)),
            ParseResult::NoMatch => Ok(None),
            ParseResult::Failed(e) => Err(e),
        }
    }
}

/// Carries a failure over to another output type.
pub fn fail_as<O1: DeepView, O2: DeepView, T, X>(r: ParseResult<O1, T, X>) -> (q: ParseResult<
    O2,
    T,
    X,
>)
    ensures
        q.model() == r.model().failure::<O2::V>(),
{
    match r {
        ParseResult::Failed(e) => ParseResult::Failed(e),
        _ => ParseResult::NoMatch,
    }
}

/// A parser over streams of `T` positioned by `X`.
///
/// `parse_lazy` is the step that combinators use: on failure it leaves the stream where the
/// failure left it. `parse` is the committed entry point: on failure it gives back the
/// stream it was handed, so a failed `parse` has no visible effect.
pub trait Parser<'a, T: StreamItem, X: Position<T>> {
    type Output: DeepView;

    /// What `parse_lazy` returns on a stream.
    spec fn spec_parse_lazy(&self, s: State<'a, T, X>) -> (
        Reply<<Self::Output as DeepView>::V, T, X>,
        State<'a, T, X>,
    );

    /// What the parser declares it expects, independent of any one attempt.
    spec fn spec_expected(&self) -> Seq<ExpectedView<T>>;

    /// A lazy step only moves the stream forward.
    proof fn lemma_parse_lazy(&self, s: State<'a, T, X>)
        requires
            s.wf(),
        ensures
            advances_to(s, self.spec_parse_lazy(s).1),
            self.spec_parse_lazy(s).1.wf(),
    ;

    /// Runs the parser without rewinding on failure.
    fn parse_lazy(&self, s: State<'a, T, X>) -> (r: (ParseResult<Self::Output, T, X>, State<'a, T, X>))
        requires
            s.wf(),
        ensures
            (r.0.model(), r.1) == self.spec_parse_lazy(s),
            advances_to(s, r.1),
            r.1.wf(),
    ;

    /// The declared expectations.
    fn expected_error(&self) -> (r: Vec<Expected<T>>)
        ensures
            expected_views(r@) == self.spec_expected(),
    ;

    /// Runs the parser, rewinding the stream if it fails.
    fn parse(&self, s: State<'a, T, X>) -> (r: (ParseResult<Self::Output, T, X>, State<'a, T, X>))
        requires
            s.wf(),
        ensures
            r.0.model() == self.spec_parse_lazy(s).0,
            r.0.model().is_failed() ==> r.1 == s,
            !r.0.model().is_failed() ==> r.1 == self.spec_parse_lazy(s).1,
            advances_to(s, r.1),
            r.1.wf(),
    {
        let backup = s;
        let (r, t) = self.parse_lazy(s);
        if r.is_failed() {
            proof {
                crate::state::lemma_advances_refl(s);
            }
            (r, backup)
        } else {
            (r, t)
        }
    }
}

/// What [`Parser::parse`] returns on a stream: the lazy result, with the stream put back
/// on failure.
pub open spec fn committed<'a, T: StreamItem, X: Position<T>, P: Parser<'a, T, X>>(
    p: P,
    s: State<'a, T, X>,
) -> (Reply<<P::Output as DeepView>::V, T, X>, State<'a, T, X>) {
    let (r, t) = p.spec_parse_lazy(s);
    if r.is_failed() {
        (r, s)
    } else {
        (r, t)
    }
}

/// A committed parse that fails gives back the stream it was handed: the same remaining
/// input at the same position.
pub proof fn lemma_backtracking_purity<'a, T: StreamItem, X: Position<T>, P: Parser<'a, T, X>>(
    p: P,
    s: State<'a, T, X>,
)
    requires
        s.wf(),
    ensures
        committed(p, s).0.is_failed() ==> committed(p, s).1 == s,
        advances_to(s, committed(p, s).1),
        committed(p, s).1.wf(),
{
    p.lemma_parse_lazy(s);
    crate::state::lemma_advances_refl(s);
}

} // verus!
