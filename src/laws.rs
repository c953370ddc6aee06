//! Laws that relate the combinators to one another.

use crate::choice::{choice_from, Choice, Or};
use crate::error::{lemma_merge_assoc, ErrorView, ExpectedView, UnexpectedView};
use crate::item::StreamItem;
use crate::many::{many_from, Many};
use crate::parser::{committed, Parser, Reply};
use crate::position::{advance, Position};
use crate::range::{mismatch_from, Range};
use crate::state::State;
use crate::token::Token;
use vstd::prelude::*;

verus! {

/// Choice is associative: `or(or(a, b), c)` and `or(a, or(b, c))` give the same result,
/// output or merged error, and the same stream, on every input, lazily and committed; and
/// they declare the same expectations.
pub proof fn lemma_or_associative<
    'a,
    T: StreamItem,
    X: Position<T>,
    A: Parser<'a, T, X>,
    B: Parser<'a, T, X, Output = A::Output>,
    C: Parser<'a, T, X, Output = A::Output>,
>(a: A, b: B, c: C, s: State<'a, T, X>)
    ensures
        (Or { p1: Or { p1: a, p2: b }, p2: c }).spec_parse_lazy(s) == (Or {
            p1: a,
            p2: Or { p1: b, p2: c },
        }).spec_parse_lazy(s),
        committed(Or { p1: Or { p1: a, p2: b }, p2: c }, s) == committed(
            Or { p1: a, p2: Or { p1: b, p2: c } },
            s,
        ),
        (Or { p1: Or { p1: a, p2: b }, p2: c }).spec_expected() == (Or {
            p1: a,
            p2: Or { p1: b, p2: c },
        }).spec_expected(),
{
    let (ra, ta) = a.spec_parse_lazy(s);
    let (rb, tb) = b.spec_parse_lazy(s);
    let (rc, tc) = c.spec_parse_lazy(s);
    if ra is Failed && rb is Failed && rc is Failed {
        lemma_merge_assoc(ra->Failed_0, rb->Failed_0, rc->Failed_0);
    }
    assert(a.spec_expected() + b.spec_expected() + c.spec_expected() =~= a.spec_expected() + (
    b.spec_expected() + c.spec_expected()));
}

/// Choice over a list of alternatives is `or` nested to the right: over two it is
/// `or(a, b)`, over three `or(a, or(b, c))`, on every input.
pub proof fn lemma_choice_is_nested_or<'a, T: StreamItem, X: Position<T>, P: Parser<'a, T, X>>(
    ch: Choice<P>,
    s: State<'a, T, X>,
)
    ensures
        ch.alternatives@.len() == 2 ==> ch.spec_parse_lazy(s) == (Or {
            p1: ch.alternatives@[0],
            p2: ch.alternatives@[1],
        }).spec_parse_lazy(s),
        ch.alternatives@.len() == 3 ==> ch.spec_parse_lazy(s) == (Or {
            p1: ch.alternatives@[0],
            p2: Or { p1: ch.alternatives@[1], p2: ch.alternatives@[2] },
        }).spec_parse_lazy(s),
{
    let alts = ch.alternatives@;
    if alts.len() == 2 {
        assert(alts.drop_first()[0] == alts[1]);
        assert(choice_from(alts.drop_first(), s) == alts[1].spec_parse_lazy(s));
    }
    if alts.len() == 3 {
        let rest = alts.drop_first();
        assert(rest[0] == alts[1]);
        assert(rest.drop_first()[0] == alts[2]);
        assert(choice_from(rest.drop_first(), s) == alts[2].spec_parse_lazy(s));
        assert(choice_from(rest, s) == (Or { p1: alts[1], p2: alts[2] }).spec_parse_lazy(s));
    }
}

/// Where `p` does not succeed at the start, `many(p)` matches an empty sequence and
/// consumes nothing, and `many1(p)` fails and consumes nothing: with `p`'s own error where
/// `p` failed.
pub proof fn lemma_many_boundary<'a, T: StreamItem, X: Position<T>, P: Parser<'a, T, X>>(
    p: P,
    s: State<'a, T, X>,
)
    requires
        !(p.spec_parse_lazy(s).0 is Matched),
    ensures
        (Many { p, min: 0 }).spec_parse_lazy(s) == (
            Reply::<Seq<<P::Output as DeepView>::V>, T, X>::Matched(Seq::empty()),
            s,
        ),
        (Many { p, min: 1 }).spec_parse_lazy(s).0 is Failed,
        (Many { p, min: 1 }).spec_parse_lazy(s).1 == s,
        p.spec_parse_lazy(s).0 is Failed ==> (Many { p, min: 1 }).spec_parse_lazy(s).0
            == p.spec_parse_lazy(s).0.failure::<Seq<<P::Output as DeepView>::V>>(),
        committed(Many { p, min: 0 }, s).1 == s,
        committed(Many { p, min: 1 }, s).1 == s,
{
    assert(many_from(p, 0, Seq::empty(), s) == (
        Reply::<Seq<<P::Output as DeepView>::V>, T, X>::Matched(Seq::empty()),
        s,
    ));
}

/// A range literal whose first `k` items match and whose next item differs fails on that
/// item, at the position reached after the `k` matching items, expecting the literal.
pub proof fn lemma_range_mismatch<'a, T: StreamItem + 'a, X: Position<T>>(
    r: Range<T>,
    s: State<'a, T, X>,
    k: int,
)
    requires
        s.rest().len() >= r.literal@.len(),
        0 <= k < r.literal@.len(),
        s.rest().take(k) == r.literal@.take(k),
        s.rest()[k] != r.literal@[k],
    ensures
        r.spec_parse_lazy(s) == (
            Reply::<Seq<T>, T, X>::Failed(
                ErrorView {
                    unexpected: UnexpectedView::Item(s.rest()[k]),
                    expected: seq![ExpectedView::Range(r.literal@)],
                    position: advance(s.position, s.rest().take(k)),
                },
            ),
            s.moved(r.literal@.len()),
        ),
{
    lemma_mismatch_at(s.rest(), r.literal@, 0, k);
}

proof fn lemma_mismatch_at<T>(a: Seq<T>, b: Seq<T>, i: int, k: int)
    requires
        b.len() <= a.len(),
        0 <= i <= k < b.len(),
        a.take(k) == b.take(k),
        a[k] != b[k],
    ensures
        mismatch_from(a, b, i) == k,
    decreases k - i,
{
    if i < k {
        assert(a.take(k)[i] == a[i] && b.take(k)[i] == b[i]);
        lemma_mismatch_at(a, b, i + 1, k);
    }
}

/// Two single-item alternatives that both fail on the next item give one error at the
/// cursor, which expects exactly the two items, in order.
pub proof fn lemma_or_tokens_merge<'a, T: StreamItem, X: Position<T>>(
    x: T,
    y: T,
    s: State<'a, T, X>,
)
    requires
        s.rest().len() == 0 || (s.rest()[0] != x && s.rest()[0] != y),
    ensures
        (Or { p1: Token { item: x }, p2: Token { item: y } }).spec_parse_lazy(s) == (
            Reply::<T, T, X>::Failed(
                ErrorView {
                    unexpected: s.spec_found(),
                    expected: seq![ExpectedView::Item(x), ExpectedView::Item(y)],
                    position: s.position,
                },
            ),
            s,
        ),
{
    X::lemma_total_order(s.position, s.position, s.position);
    assert(seq![ExpectedView::Item(x)] + seq![ExpectedView::<T>::Item(y)] =~= seq![
        ExpectedView::Item(x),
        ExpectedView::Item(y),
    ]);
}

} // verus!
