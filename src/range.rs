//! The parser of an exact, contiguous range of items.

use crate::error::{copy_items, Error, ErrorView, Expected, ExpectedView, UnexpectedView, expected_views};
use crate::item::{lemma_items_deep_view, StreamItem};
use crate::parser::{ParseResult, Parser, Reply};
use crate::position::{advance, lemma_range_update_is_itemwise, Position};
use crate::state::{lemma_advances_refl, lemma_moved, State};
use vstd::prelude::*;

verus! {

/// The first index at or after `i` where `a` and `b` differ, or the length of `b` if none
/// does (within the length of `b`).
pub open spec fn mismatch_from<T>(a: Seq<T>, b: Seq<T>, i: int) -> int
    recommends
        b.len() <= a.len(),
    decreases b.len() - i,
{
    if i >= b.len() {
        b.len() as int
    } else if a[i] != b[i] {
        i
    } else {
        mismatch_from(a, b, i + 1)
    }
}

proof fn lemma_mismatch_from<T>(a: Seq<T>, b: Seq<T>, i: int)
    requires
        b.len() <= a.len(),
        0 <= i <= b.len(),
    ensures
        i <= mismatch_from(a, b, i) <= b.len(),
        forall|j: int| i <= j < mismatch_from(a, b, i) ==> a[j] == b[j],
        mismatch_from(a, b, i) < b.len() ==> a[mismatch_from(a, b, i)] != b[mismatch_from(a, b, i)],
    decreases b.len() - i,
{
    if i < b.len() && a[i] == b[i] {
        lemma_mismatch_from(a, b, i + 1);
    }
}

/// Parses exactly the items of `literal`, as one range.
///
/// When fewer items are left than the literal has, it fails with the end of input at the
/// start, consuming nothing. When the items differ, it consumes them and fails on the first
/// item that differs, at that item's own position.
#[derive(Clone, Debug)]
pub struct Range<T> {
    pub literal: Vec<T>,
}

impl<T> Range<T> {
    /// The error of a failed match: `found` at `position`, expecting the literal.
    pub open spec fn error_at<X>(self, found: UnexpectedView<T>, position: X) -> ErrorView<T, X> {
        ErrorView { unexpected: found, expected: seq![ExpectedView::Range(self.literal@)], position }
    }
}

impl<'a, T: StreamItem + 'a, X: Position<T>> Parser<'a, T, X> for Range<T> {
    type Output = &'a [T];

    open spec fn spec_parse_lazy(&self, s: State<'a, T, X>) -> (
        Reply<Seq<T>, T, X>,
        State<'a, T, X>,
    ) {
        let lit = self.literal@;
        let n = lit.len();
        if s.rest().len() < n {
            (Reply::Failed(self.error_at(UnexpectedView::EndOfInput, s.position)), s)
        } else {
            let k = mismatch_from(s.rest(), lit, 0);
            if k == n {
                (Reply::Matched(lit), s.moved(n))
            } else {
                (
                    Reply::Failed(
                        self.error_at(
                            UnexpectedView::Item(s.rest()[k]),
                            advance(s.position, s.rest().take(k)),
                        ),
                    ),
                    s.moved(n),
                )
            }
        }
    }

    open spec fn spec_expected(&self) -> Seq<ExpectedView<T>> {
        seq![ExpectedView::Range(self.literal@)]
    }

    proof fn lemma_parse_lazy(&self, s: State<'a, T, X>) {
        lemma_advances_refl(s);
        if s.rest().len() >= self.literal@.len() {
            lemma_moved(s, self.literal@.len());
        }
    }

    fn parse_lazy(&self, s: State<'a, T, X>) -> (r: (ParseResult<&'a [T], T, X>, State<'a, T, X>)) {
        proof {
            self.lemma_parse_lazy(s);
        }
        let ghost lit = self.literal@;
        let n = self.literal.len();
        let start = s.position;
        let mut t = s;
        match t.range(n) {
            None => {
                let e = Error::eof(start).expecting(Expected::Range(copy_items(self.literal.as_slice())));
                proof {
                    assert(e@.expected =~= seq![ExpectedView::Range(lit)]);
                }
                (ParseResult::Failed(e), s)
            },
            Some(got) => {
                let mut k: usize = 0;
                proof {
                    lemma_mismatch_from(s.rest(), lit, 0);
                }
                while k < n && got[k].same(&self.literal[k])
                    invariant
                        got@ == s.rest().take(n as int),
                        n == lit.len(),
                        lit == self.literal@,
                        n <= s.rest().len(),
                        0 <= k <= n,
                        mismatch_from(s.rest(), lit, k as int) == mismatch_from(s.rest(), lit, 0),
                    decreases n - k,
                {
                    k = k + 1;
                }
                proof {
                    lemma_mismatch_from(s.rest(), lit, k as int);
                }
                if k == n {
                    proof {
                        assert(got@ =~= lit) by {
                            lemma_mismatch_from(s.rest(), lit, 0);
                        }
                        lemma_items_deep_view(got@);
                        assert(ParseResult::<&'a [T], T, X>::Matched(got).model() == Reply::<
                            Seq<T>,
                            T,
                            X,
                        >::Matched(lit));
                    }
                    (ParseResult::Matched(got), t)
                } else {
                    let mut p = start;
                    let matched = &got[0..k];
                    proof {
                        assert(matched@ =~= s.rest().take(k as int));
                        start.lemma_room_mono(k as nat, s.rest().len());
                        lemma_range_update_is_itemwise(start, matched@);
                    }
                    p.update_range(matched);
                    let e = Error::item(got[k], p).expecting(
                        Expected::Range(copy_items(self.literal.as_slice())),
                    );
                    proof {
                        assert(e@.expected =~= seq![ExpectedView::Range(lit)]);
                    }
                    (ParseResult::Failed(e), t)
                }
            },
        }
    }

    fn expected_error(&self) -> (r: Vec<Expected<T>>) {
        let r = vec![Expected::Range(copy_items(self.literal.as_slice()))];
        assert(expected_views(r@) =~= seq![ExpectedView::Range(self.literal@)]);
        r
    }
}

/// Parses exactly the items of `literal`.
pub fn range<T: StreamItem>(literal: &[T]) -> (r: Range<T>)
    ensures
        r.literal@ == literal@,
{
    Range { literal: copy_items(literal) }
}

} // verus!
