//! Sequencing that keeps both outputs.

use crate::error::{Expected, ExpectedView};
use crate::item::StreamItem;
use crate::parser::{fail_as, ParseResult, Parser, Reply};
use crate::position::Position;
use crate::state::{lemma_advances_trans, State};
use vstd::prelude::*;

verus! {

/// The outputs a reply contributes to a collection: its value, if it matched.
pub open spec fn outputs<V, T, X>(r: Reply<V, T, X>) -> Seq<V> {
    match r {
        Reply::Matched(v) => seq![v],
        _ => Seq::empty(),
    }
}

/// Pushes the output of a result, if it matched, onto a vector.
fn push_output<O: DeepView, T, X>(v: &mut Vec<O>, r: ParseResult<O, T, X>)
    ensures
        final(v).deep_view() == old(v).deep_view() + outputs(r.model()),
{
    let ghost before = v.deep_view();
    match r {
        ParseResult::Matched(o) => {
            v.push(o);
            assert(v.deep_view() =~= before + outputs(r.model()));
        },
        _ => {
            assert(v.deep_view() =~= before + outputs(r.model()));
        },
    }
}

/// Runs `p1` then `p2`, collecting both outputs, in order, into one vector.
#[derive(Clone, Copy, Debug)]
pub struct Then<P1, P2> {
    pub p1: P1,
    pub p2: P2,
}

impl<
    'a,
    T: StreamItem,
    X: Position<T>,
    P1: Parser<'a, T, X>,
    P2: Parser<'a, T, X, Output = P1::Output>,
> Parser<'a, T, X> for Then<P1, P2> {
    type Output = Vec<P1::Output>;

    open spec fn spec_parse_lazy(&self, s: State<'a, T, X>) -> (
        Reply<Seq<<P1::Output as DeepView>::V>, T, X>,
        State<'a, T, X>,
    ) {
        let (r1, t1) = self.p1.spec_parse_lazy(s);
        if r1.is_failed() {
            (r1.failure(), t1)
        } else {
            let (r2, t2) = self.p2.spec_parse_lazy(t1);
            if r2.is_failed() {
                (r2.failure(), t2)
            } else {
                (Reply::Matched(outputs(r1) + outputs(r2)), t2)
            }
        }
    }

    open spec fn spec_expected(&self) -> Seq<ExpectedView<T>> {
        self.p1.spec_expected()
    }

    proof fn lemma_parse_lazy(&self, s: State<'a, T, X>) {
        self.p1.lemma_parse_lazy(s);
        let t1 = self.p1.spec_parse_lazy(s).1;
        self.p2.lemma_parse_lazy(t1);
        lemma_advances_trans(s, t1, self.p2.spec_parse_lazy(t1).1);
    }

    fn parse_lazy(&self, s: State<'a, T, X>) -> (r: (
        ParseResult<Vec<P1::Output>, T, X>,
        State<'a, T, X>,
    )) {
        proof {
            self.lemma_parse_lazy(s);
        }
        let (r1, t1) = self.p1.parse_lazy(s);
        if r1.is_failed() {
            return (fail_as(r1), t1);
        }
        let (r2, t2) = self.p2.parse_lazy(t1);
        if r2.is_failed() {
            return (fail_as(r2), t2);
        }
        let mut v: Vec<P1::Output> = Vec::new();
        proof {
            assert(v.deep_view() =~= Seq::<<P1::Output as DeepView>::V>::empty());
        }
        push_output(&mut v, r1);
        push_output(&mut v, r2);
        proof {
            assert(v.deep_view() =~= outputs(r1.model()) + outputs(r2.model()));
        }
        (ParseResult::Matched(v), t2)
    }

    fn expected_error(&self) -> (r: Vec<Expected<T>>) {
        self.p1.expected_error()
    }
}

/// Parses with `p1` followed by `p2`, collecting both outputs.
pub fn then<P1, P2>(p1: P1, p2: P2) -> (r: Then<P1, P2>)
    ensures
        r.p1 == p1,
        r.p2 == p2,
{
    Then { p1, p2 }
}

} // verus!
