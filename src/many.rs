//! Repetition: `many` and `many1`.

use crate::error::{Expected, ExpectedView};
use crate::item::StreamItem;
use crate::parser::{ParseResult, Parser, Reply};
use crate::position::Position;
use crate::state::{advances_to, lemma_advances_refl, lemma_advances_trans, State};
use crate::token::error_expecting;
use vstd::prelude::*;

verus! {

/// Whether a lazy step from `s` to `t` consumed at least one item.
pub open spec fn progressed<'a, T, X>(s: State<'a, T, X>, t: State<'a, T, X>) -> bool {
    &&& t.items@ == s.items@
    &&& s.offset < t.offset <= s.items@.len()
}

/// What repeating `p` from `s` gives, with `acc` matched so far and at least `min` matches
/// needed.
///
/// Each attempt that matches and consumes adds its output and goes on. The first attempt
/// that fails, matches nothing, or matches without consuming anything ends the repetition
/// where it started: with what was gathered if there is enough of it; otherwise with the
/// attempt's error, or, if it did not fail, an error at the cursor expecting what `p`
/// expects.
pub open spec fn many_from<'a, T: StreamItem, X: Position<T>, P: Parser<'a, T, X>>(
    p: P,
    min: nat,
    acc: Seq<<P::Output as DeepView>::V>,
    s: State<'a, T, X>,
) -> (Reply<Seq<<P::Output as DeepView>::V>, T, X>, State<'a, T, X>)
    decreases s.items@.len() - s.offset,
{
    let (r, t) = p.spec_parse_lazy(s);
    if r is Matched && progressed(s, t) {
        many_from(p, min, acc.push(r->Matched_0), t)
    } else if acc.len() >= min {
        (Reply::Matched(acc), s)
    } else {
        match r {
            Reply::Failed(e) => (Reply::Failed(e), s),
            _ => (Reply::Failed(error_expecting(s, p.spec_expected())), s),
        }
    }
}

proof fn lemma_many_from<'a, T: StreamItem, X: Position<T>, P: Parser<'a, T, X>>(
    p: P,
    min: nat,
    acc: Seq<<P::Output as DeepView>::V>,
    s: State<'a, T, X>,
)
    requires
        s.wf(),
    ensures
        advances_to(s, many_from(p, min, acc, s).1),
        many_from(p, min, acc, s).1.wf(),
    decreases s.items@.len() - s.offset,
{
    p.lemma_parse_lazy(s);
    lemma_advances_refl(s);
    let (r, t) = p.spec_parse_lazy(s);
    if r is Matched && progressed(s, t) {
        lemma_many_from(p, min, acc.push(r->Matched_0), t);
        lemma_advances_trans(s, t, many_from(p, min, acc.push(r->Matched_0), t).1);
    }
}

/// Repeats `p` as long as it matches and consumes, gathering its outputs; needs at least
/// `min` matches.
#[derive(Clone, Copy, Debug)]
pub struct Many<P> {
    pub p: P,
    pub min: usize,
}

impl<'a, T: StreamItem, X: Position<T>, P: Parser<'a, T, X>> Parser<'a, T, X> for Many<P> {
    type Output = Vec<P::Output>;

    open spec fn spec_parse_lazy(&self, s: State<'a, T, X>) -> (
        Reply<Seq<<P::Output as DeepView>::V>, T, X>,
        State<'a, T, X>,
    ) {
        many_from(self.p, self.min as nat, Seq::empty(), s)
    }

    open spec fn spec_expected(&self) -> Seq<ExpectedView<T>> {
        self.p.spec_expected()
    }

    proof fn lemma_parse_lazy(&self, s: State<'a, T, X>) {
        lemma_many_from(self.p, self.min as nat, Seq::empty(), s);
    }

    fn parse_lazy(&self, s: State<'a, T, X>) -> (r: (
        ParseResult<Vec<P::Output>, T, X>,
        State<'a, T, X>,
    )) {
        proof {
            self.lemma_parse_lazy(s);
        }
        let mut out: Vec<P::Output> = Vec::new();
        let mut cur = s;
        proof {
            assert(out.deep_view() =~= Seq::<<P::Output as DeepView>::V>::empty());
            lemma_advances_refl(s);
        }
        loop
            invariant
                s.wf(),
                cur.wf(),
                advances_to(s, cur),
                many_from(self.p, self.min as nat, out.deep_view(), cur) == self.spec_parse_lazy(s),
            decreases cur.items@.len() - cur.offset,
        {
            let (r, t) = self.p.parse_lazy(cur);
            let matched = match &r {
                ParseResult::Matched(_) => true,
                _ => false,
            };
            if matched && t.offset > cur.offset {
                let ghost before = out.deep_view();
                match r {
                    ParseResult::Matched(o) => {
                        out.push(o);
                        assert(out.deep_view() =~= before.push(o.deep_view()));
                    },
                    _ => {},
                }
                proof {
                    lemma_advances_trans(s, cur, t);
                }
                cur = t;
            } else if out.len() >= self.min {
                return (ParseResult::Matched(out), cur);
            } else {
                match r {
                    ParseResult::Failed(e) => {
                        return (ParseResult::Failed(e), cur);
                    },
                    _ => {
                        let e = cur.new_error().expecting_all(self.p.expected_error());
                        assert(e@.expected =~= self.p.spec_expected());
                        return (ParseResult::Failed(e), cur);
                    },
                }
            }
        }
    }

    fn expected_error(&self) -> (r: Vec<Expected<T>>) {
        self.p.expected_error()
    }
}

/// Repeats `p` zero or more times.
pub fn many<P>(p: P) -> (r: Many<P>)
    ensures
        r.p == p,
        r.min == 0,
{
    Many { p, min: 0 }
}

/// Repeats `p` one or more times.
pub fn many1<P>(p: P) -> (r: Many<P>)
    ensures
        r.p == p,
        r.min == 1,
{
    Many { p, min: 1 }
}

} // verus!
