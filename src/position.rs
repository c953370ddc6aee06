//! Positions: where in the input a stream's cursor stands.

use crate::item::{is_newline, item_is_newline, StreamItem};
use vstd::prelude::*;

verus! {

/// What a position is apart from the items it moves over: a start, a total order, and
/// a bound on how far it can still move. `room(n)` says that `n` more moves cannot
/// overflow the position's counters.
pub trait Location: Sized + Copy {
    spec fn spec_start() -> Self;

    spec fn room(self, n: nat) -> bool;

    spec fn spec_le(self, other: Self) -> bool;

    proof fn lemma_start_room()
        ensures
            Self::spec_start().room(0),
    ;

    proof fn lemma_room_mono(self, m: nat, n: nat)
        requires
            self.room(n),
            m <= n,
        ensures
            self.room(m),
    ;

    proof fn lemma_total_order(a: Self, b: Self, c: Self)
        ensures
            a.spec_le(a),
            a.spec_le(b) || b.spec_le(a),
            a.spec_le(b) && b.spec_le(a) ==> a == b,
            a.spec_le(b) && b.spec_le(c) ==> a.spec_le(c),
    ;

    /// The position at the start of the input.
    fn start() -> (r: Self)
        ensures
            r == Self::spec_start(),
    ;

    /// Whether this position is at or before `other`.
    fn le(&self, other: &Self) -> (r: bool)
        ensures
            r == self.spec_le(*other),
    ;
}

/// A location-tracking strategy for a stream of items of type `T`: it moves by `update`
/// for each consumed item.
pub trait Position<T: StreamItem>: Location {
    spec fn spec_update(self, item: T) -> Self;

    proof fn lemma_room(self, item: T, n: nat)
        requires
            self.room(n + 1),
        ensures
            self.room(n),
            self.spec_update(item).room(n),
    ;

    /// Moves the position past one item.
    fn update(&mut self, item: T)
        requires
            old(self).room(1),
        ensures
            *final(self) == old(self).spec_update(item),
    ;

    /// The position reached by moving past a whole range of items at once.
    spec fn spec_advance(self, items: Seq<T>) -> Self;

    /// Moving past a range is moving past its first item, then past the rest.
    proof fn lemma_advance_step(self, items: Seq<T>)
        requires
            self.room(items.len()),
        ensures
            items.len() == 0 ==> self.spec_advance(items) == self,
            items.len() > 0 ==> self.spec_advance(items) == self.spec_update(
                items[0],
            ).spec_advance(items.drop_first()),
    ;

    /// Moves the position past a whole range of items at once.
    fn update_range(&mut self, items: &[T])
        requires
            old(self).room(items@.len()),
        ensures
            *final(self) == old(self).spec_advance(items@),
    ;
}

/// The position reached from `p` by updating it with each item of `items`, in order.
pub open spec fn advance<T: StreamItem, X: Position<T>>(p: X, items: Seq<T>) -> X
    decreases items.len(),
{
    if items.len() == 0 {
        p
    } else {
        advance(p.spec_update(items[0]), items.drop_first())
    }
}

/// Advancing over two ranges one after the other is advancing over their concatenation.
pub proof fn lemma_advance_concat<T: StreamItem, X: Position<T>>(p: X, a: Seq<T>, b: Seq<T>)
    ensures
        advance(p, a + b) == advance(advance(p, a), b),
    decreases a.len(),
{
    if a.len() == 0 {
        assert(a + b =~= b);
    } else {
        assert((a + b).drop_first() =~= a.drop_first() + b);
        lemma_advance_concat(p.spec_update(a[0]), a.drop_first(), b);
    }
}

/// Advancing over one more item is one more update.
pub proof fn lemma_advance_push<T: StreamItem, X: Position<T>>(p: X, a: Seq<T>, t: T)
    ensures
        advance(p, a.push(t)) == advance(p, a).spec_update(t),
{
    lemma_advance_concat(p, a, seq![t]);
    assert(a.push(t) =~= a + seq![t]);
    let q = advance(p, a);
    assert(seq![t].drop_first() =~= Seq::<T>::empty());
    assert(advance(q.spec_update(t), Seq::<T>::empty()) == q.spec_update(t));
}

/// Room for `n` items, after advancing over `k <= n` of them, leaves room for the rest.
pub proof fn lemma_advance_room<T: StreamItem, X: Position<T>>(p: X, items: Seq<T>, n: nat)
    requires
        p.room(n),
        items.len() <= n,
    ensures
        advance(p, items).room((n - items.len()) as nat),
    decreases items.len(),
{
    if items.len() > 0 {
        p.lemma_room(items[0], (n - 1) as nat);
        lemma_advance_room(p.spec_update(items[0]), items.drop_first(), (n - 1) as nat);
    }
}

/// Updating a position by a range as a whole equals updating it by the range's items
/// one at a time, in order.
pub proof fn lemma_range_update_is_itemwise<T: StreamItem, X: Position<T>>(p: X, items: Seq<T>)
    requires
        p.room(items.len()),
    ensures
        p.spec_advance(items) == advance(p, items),
    decreases items.len(),
{
    p.lemma_advance_step(items);
    if items.len() > 0 {
        p.lemma_room(items[0], (items.len() - 1) as nat);
        lemma_range_update_is_itemwise(p.spec_update(items[0]), items.drop_first());
    }
}

/// A position that tracks nothing: every location looks the same.
#[derive(Clone, Copy, Debug, PartialEq, Eq, Structural)]
pub struct NullPosition;

impl Location for NullPosition {
    open spec fn spec_start() -> Self {
        NullPosition
    }

    open spec fn room(self, n: nat) -> bool {
        true
    }

    open spec fn spec_le(self, other: Self) -> bool {
        true
    }

    proof fn lemma_start_room() {
    }

    proof fn lemma_room_mono(self, m: nat, n: nat) {
    }

    proof fn lemma_total_order(a: Self, b: Self, c: Self) {
    }

    fn start() -> (r: Self) {
        NullPosition
    }

    fn le(&self, other: &Self) -> (r: bool) {
        true
    }
}

impl<T: StreamItem> Position<T> for NullPosition {
    open spec fn spec_update(self, item: T) -> Self {
        NullPosition
    }

    proof fn lemma_room(self, item: T, n: nat) {
    }

    open spec fn spec_advance(self, items: Seq<T>) -> Self {
        NullPosition
    }

    proof fn lemma_advance_step(self, items: Seq<T>) {
    }

    fn update(&mut self, item: T) {
    }

    fn update_range(&mut self, items: &[T]) {
    }
}

/// A position given by the number of items consumed so far.
#[derive(Clone, Copy, Debug, PartialEq, Eq, Structural)]
pub struct IndexPosition(pub usize);

impl IndexPosition {
    /// The index this position stands for.
    pub fn value(&self) -> (r: usize)
        ensures
            r == self.0,
    {
        self.0
    }

    /// The position at index `x`.
    pub fn from(x: usize) -> (r: IndexPosition)
        ensures
            r.0 == x,
    {
        IndexPosition(x)
    }
}

impl Location for IndexPosition {
    open spec fn spec_start() -> Self {
        IndexPosition(0)
    }

    open spec fn room(self, n: nat) -> bool {
        self.0 + n <= usize::MAX
    }

    open spec fn spec_le(self, other: Self) -> bool {
        self.0 <= other.0
    }

    proof fn lemma_start_room() {
    }

    proof fn lemma_room_mono(self, m: nat, n: nat) {
    }

    proof fn lemma_total_order(a: Self, b: Self, c: Self) {
    }

    fn start() -> (r: Self) {
        IndexPosition(0)
    }

    fn le(&self, other: &Self) -> (r: bool) {
        self.0 <= other.0
    }
}

impl<T: StreamItem> Position<T> for IndexPosition {
    open spec fn spec_update(self, item: T) -> Self {
        IndexPosition((self.0 + 1) as usize)
    }

    proof fn lemma_room(self, item: T, n: nat) {
    }

    open spec fn spec_advance(self, items: Seq<T>) -> Self {
        IndexPosition((self.0 + items.len()) as usize)
    }

    proof fn lemma_advance_step(self, items: Seq<T>) {
    }

    fn update(&mut self, item: T) {
        self.0 = self.0 + 1;
    }

    fn update_range(&mut self, items: &[T]) {
        self.0 = self.0 + items.len();
    }
}

/// A position given by a 1-based line and column. A newline moves to the first column
/// of the next line; any other item moves one column right.
#[derive(Clone, Copy, Debug, PartialEq, Eq, Structural)]
pub struct LinePosition {
    pub line: u32,
    pub column: u32,
}

impl LinePosition {
    /// The line and column of this position.
    pub fn value(&self) -> (r: (u32, u32))
        ensures
            r == (self.line, self.column),
    {
        (self.line, self.column)
    }

    /// The position at the given line and column.
    pub fn from(line: u32, column: u32) -> (r: LinePosition)
        ensures
            r.line == line,
            r.column == column,
    {
        LinePosition { line, column }
    }
}

impl Location for LinePosition {
    open spec fn spec_start() -> Self {
        LinePosition { line: 1, column: 1 }
    }

    open spec fn room(self, n: nat) -> bool {
        self.line + n <= u32::MAX && self.column + n <= u32::MAX
    }

    open spec fn spec_le(self, other: Self) -> bool {
        self.line < other.line || (self.line == other.line && self.column <= other.column)
    }

    proof fn lemma_start_room() {
    }

    proof fn lemma_room_mono(self, m: nat, n: nat) {
    }

    proof fn lemma_total_order(a: Self, b: Self, c: Self) {
    }

    fn start() -> (r: Self) {
        LinePosition { line: 1, column: 1 }
    }

    fn le(&self, other: &Self) -> (r: bool) {
        self.line < other.line || (self.line == other.line && self.column <= other.column)
    }
}

/// The line position after one item.
pub open spec fn line_step<T: StreamItem>(p: LinePosition, item: T) -> LinePosition {
    if is_newline(item) {
        LinePosition { line: (p.line + 1) as u32, column: 1 }
    } else {
        LinePosition { line: p.line, column: (p.column + 1) as u32 }
    }
}

/// The line position reached from `p` over `items`.
pub open spec fn line_advance<T: StreamItem>(p: LinePosition, items: Seq<T>) -> LinePosition
    decreases items.len(),
{
    if items.len() == 0 {
        p
    } else {
        line_advance(line_step(p, items[0]), items.drop_first())
    }
}

proof fn lemma_line_advance_push<T: StreamItem>(p: LinePosition, a: Seq<T>, t: T)
    ensures
        line_advance(p, a.push(t)) == line_step(line_advance(p, a), t),
    decreases a.len(),
{
    if a.len() == 0 {
        assert(a.push(t).drop_first() =~= Seq::<T>::empty());
        assert(line_advance(line_step(p, t), Seq::<T>::empty()) == line_step(p, t));
    } else {
        assert(a.push(t).drop_first() =~= a.drop_first().push(t));
        lemma_line_advance_push(line_step(p, a[0]), a.drop_first(), t);
    }
}

proof fn lemma_line_advance_room<T: StreamItem>(p: LinePosition, a: Seq<T>, n: nat)
    requires
        p.line + n <= u32::MAX,
        p.column + n <= u32::MAX,
        a.len() <= n,
    ensures
        line_advance(p, a).line + (n - a.len()) <= u32::MAX,
        line_advance(p, a).column + (n - a.len()) <= u32::MAX,
    decreases a.len(),
{
    if a.len() > 0 {
        lemma_line_advance_room(line_step(p, a[0]), a.drop_first(), (n - 1) as nat);
    }
}

impl<T: StreamItem> Position<T> for LinePosition {
    open spec fn spec_update(self, item: T) -> Self {
        line_step(self, item)
    }

    proof fn lemma_room(self, item: T, n: nat) {
    }

    open spec fn spec_advance(self, items: Seq<T>) -> Self {
        line_advance(self, items)
    }

    proof fn lemma_advance_step(self, items: Seq<T>) {
    }

    fn update(&mut self, item: T) {
        if item_is_newline(&item) {
            self.line = self.line + 1;
            self.column = 1;
        } else {
            self.column = self.column + 1;
        }
    }

    fn update_range(&mut self, items: &[T]) {
        let ghost p0 = *self;
        let mut i: usize = 0;
        while i < items.len()
            invariant
                0 <= i <= items@.len(),
                p0.line + items@.len() <= u32::MAX,
                p0.column + items@.len() <= u32::MAX,
                *self == line_advance(p0, items@.subrange(0, i as int)),
            decreases items@.len() - i,
        {
            proof {
                lemma_line_advance_room(p0, items@.subrange(0, i as int), items@.len());
                lemma_line_advance_push(p0, items@.subrange(0, i as int), items@[i as int]);
                assert(items@.subrange(0, i as int).push(items@[i as int]) =~= items@.subrange(
                    0,
                    i + 1,
                ));
            }
            self.update(items[i]);
            i = i + 1;
        }
        assert(items@.subrange(0, i as int) =~= items@);
    }
}

} // verus!
