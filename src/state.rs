//! The input stream: a borrowed slice of items, a cursor into it, and the cursor's position.

use crate::item::StreamItem;
use crate::position::{
    advance, lemma_advance_concat, lemma_advance_push, lemma_advance_room,
    lemma_range_update_is_itemwise, Position,
};
use vstd::prelude::*;

verus! {

/// A stream over a borrowed slice of items.
///
/// The stream is a plain value: copying it is taking a snapshot, and putting the copy back
/// restores both the remaining input and the position. Nothing is shared or mutated behind
/// the caller's back, so backtracking costs nothing.
#[derive(Clone, Copy, Debug)]
pub struct State<'a, T, X> {
    /// The whole input.
    pub items: &'a [T],
    /// How many items of `items` have been consumed.
    pub offset: usize,
    /// The position of the cursor.
    pub position: X,
}

/// `t` is `s` moved forward over zero or more items, with the position updated over them.
pub open spec fn advances_to<'a, T: StreamItem, X: Position<T>>(
    s: State<'a, T, X>,
    t: State<'a, T, X>,
) -> bool {
    &&& t.items@ == s.items@
    &&& s.offset <= t.offset <= s.items@.len()
    &&& t.position == advance(s.position, s.items@.subrange(s.offset as int, t.offset as int))
}

impl<'a, T: StreamItem, X: Position<T>> State<'a, T, X> {
    /// The items not consumed yet.
    pub open spec fn rest(self) -> Seq<T> {
        self.items@.subrange(self.offset as int, self.items@.len() as int)
    }

    /// This stream moved forward over its next `n` items.
    pub open spec fn moved(self, n: nat) -> Self {
        State {
            items: self.items,
            offset: (self.offset + n) as usize,
            position: advance(self.position, self.rest().take(n as int)),
        }
    }

    /// The cursor lies inside the input, and the position can move over all that is left.
    pub open spec fn wf(self) -> bool {
        &&& self.offset <= self.items@.len() <= usize::MAX
        &&& self.position.room(self.rest().len())
    }

    /// A stream over `items`, starting at `position`.
    pub fn new(items: &'a [T], position: X) -> (r: Self)
        requires
            position.room(items@.len()),
        ensures
            r.wf(),
            r.items@ == items@,
            r.offset == 0,
            r.rest() == items@,
            r.position == position,
    {
        let _ = items.len();
        let r = State { items, offset: 0, position };
        assert(r.rest() =~= items@);
        r
    }

    /// A stream over `items`, starting at the start position.
    pub fn from(items: &'a [T]) -> (r: Self)
        requires
            X::spec_start().room(items@.len()),
        ensures
            r.wf(),
            r.items@ == items@,
            r.offset == 0,
            r.rest() == items@,
            r.position == X::spec_start(),
    {
        State::new(items, X::start())
    }

    /// The items not consumed yet.
    pub fn remaining(&self) -> (r: &'a [T])
        requires
            self.wf(),
        ensures
            r@ == self.rest(),
    {
        &self.items[self.offset..self.items.len()]
    }

    /// How many items are left.
    pub fn len(&self) -> (r: usize)
        requires
            self.wf(),
        ensures
            r == self.rest().len(),
    {
        self.items.len() - self.offset
    }

    /// The current position.
    pub fn position(&self) -> (r: X)
        ensures
            r == self.position,
    {
        self.position
    }

    /// The position `n` items further on, without consuming anything.
    pub fn nth_position(&self, n: usize) -> (r: X)
        requires
            self.wf(),
            n <= self.rest().len(),
        ensures
            r == advance(self.position, self.rest().take(n as int)),
    {
        let mut p = self.position;
        let ahead = &self.items[self.offset..self.offset + n];
        proof {
            assert(ahead@ =~= self.rest().take(n as int));
            self.position.lemma_room_mono(n as nat, self.rest().len());
            lemma_range_update_is_itemwise(self.position, ahead@);
        }
        p.update_range(ahead);
        p
    }

    /// A snapshot of the stream, to be put back with `restore`.
    pub fn backup(&self) -> (r: Self)
        ensures
            r == *self,
    {
        *self
    }

    /// Puts back a snapshot taken with `backup`: the same remaining input and position.
    pub fn restore(&mut self, backup: Self)
        ensures
            *final(self) == backup,
    {
        *self = backup;
    }

    /// The next item, without consuming it.
    pub fn peek(&self) -> (r: Option<T>)
        requires
            self.wf(),
        ensures
            self.rest().len() == 0 ==> r.is_none(),
            self.rest().len() > 0 ==> r == Some(self.rest()[0]),
    {
        if self.offset < self.items.len() {
            Some(self.items[self.offset])
        } else {
            None
        }
    }

    /// Consumes and returns the next item, moving the position past it.
    pub fn pop(&mut self) -> (r: Option<T>)
        requires
            old(self).wf(),
        ensures
            final(self).wf(),
            advances_to(*old(self), *final(self)),
            old(self).rest().len() == 0 ==> r.is_none() && *final(self) == *old(self),
            old(self).rest().len() > 0 ==> {
                &&& r == Some(old(self).rest()[0])
                &&& *final(self) == old(self).moved(1)
                &&& final(self).offset == old(self).offset + 1
                &&& final(self).position == old(self).position.spec_update(old(self).rest()[0])
            },
    {
        if self.offset < self.items.len() {
            let item = self.items[self.offset];
            proof {
                let s = *self;
                s.position.lemma_room(item, (s.rest().len() - 1) as nat);
                s.position.lemma_room_mono(1, s.rest().len());
                lemma_advance_push(
                    s.position,
                    s.items@.subrange(s.offset as int, s.offset as int),
                    item,
                );
                assert(s.items@.subrange(s.offset as int, s.offset as int) =~= Seq::<T>::empty());
                assert(s.items@.subrange(s.offset as int, s.offset as int).push(item)
                    =~= s.items@.subrange(s.offset as int, s.offset + 1));
                assert(s.rest().take(1) =~= s.items@.subrange(s.offset as int, s.offset + 1));
                assert(self.rest().drop_first() =~= s.items@.subrange(
                    s.offset + 1,
                    s.items@.len() as int,
                ));
            }
            self.position.update(item);
            self.offset = self.offset + 1;
            Some(item)
        } else {
            proof {
                assert(self.items@.subrange(self.offset as int, self.offset as int)
                    =~= Seq::<T>::empty());
            }
            None
        }
    }

    /// Consumes exactly `n` items as one contiguous range, if that many are left;
    /// otherwise consumes nothing.
    pub fn range(&mut self, n: usize) -> (r: Option<&'a [T]>)
        requires
            old(self).wf(),
        ensures
            final(self).wf(),
            advances_to(*old(self), *final(self)),
            old(self).rest().len() < n ==> r.is_none() && *final(self) == *old(self),
            old(self).rest().len() >= n ==> {
                &&& r.is_some()
                &&& r.unwrap()@ == old(self).rest().take(n as int)
                &&& *final(self) == old(self).moved(n as nat)
                &&& final(self).offset == old(self).offset + n
            },
    {
        if self.items.len() - self.offset < n {
            proof {
                assert(self.items@.subrange(self.offset as int, self.offset as int)
                    =~= Seq::<T>::empty());
            }
            None
        } else {
            let end = self.offset + n;
            let r = &self.items[self.offset..end];
            proof {
                let s = *self;
                assert(r@ =~= s.rest().take(n as int));
                assert(r@ =~= s.items@.subrange(s.offset as int, end as int));
                s.position.lemma_room_mono(n as nat, s.rest().len());
                lemma_range_update_is_itemwise(s.position, r@);
                lemma_advance_room(s.position, s.rest(), s.rest().len());
                lemma_advance_concat(s.position, r@, s.rest().skip(n as int));
                assert(r@ + s.rest().skip(n as int) =~= s.rest());
                lemma_advance_room(s.position, r@, s.rest().len());
                assert(s.rest().skip(n as int) =~= s.items@.subrange(
                    end as int,
                    s.items@.len() as int,
                ));
            }
            self.position.update_range(r);
            self.offset = end;
            Some(r)
        }
    }
}

/// Moving a well-formed stream over some of its remaining items moves it forward.
pub proof fn lemma_moved<'a, T: StreamItem, X: Position<T>>(s: State<'a, T, X>, n: nat)
    requires
        s.wf(),
        n <= s.rest().len(),
    ensures
        advances_to(s, s.moved(n)),
        s.moved(n).wf(),
        s.moved(n).rest() == s.rest().skip(n as int),
{
    assert(s.rest().take(n as int) =~= s.items@.subrange(s.offset as int, s.offset + n));
    assert(s.moved(n).rest() =~= s.rest().skip(n as int));
    lemma_advances_wf(s, s.moved(n));
}

/// Moving forward is reflexive.
pub proof fn lemma_advances_refl<'a, T: StreamItem, X: Position<T>>(s: State<'a, T, X>)
    requires
        s.wf(),
    ensures
        advances_to(s, s),
{
    assert(s.items@.subrange(s.offset as int, s.offset as int) =~= Seq::<T>::empty());
}

/// Moving forward is transitive, and keeps a stream well formed.
pub proof fn lemma_advances_trans<'a, T: StreamItem, X: Position<T>>(
    s: State<'a, T, X>,
    t: State<'a, T, X>,
    u: State<'a, T, X>,
)
    requires
        advances_to(s, t),
        advances_to(t, u),
    ensures
        advances_to(s, u),
{
    let a = s.items@.subrange(s.offset as int, t.offset as int);
    let b = s.items@.subrange(t.offset as int, u.offset as int);
    lemma_advance_concat(s.position, a, b);
    assert(a + b =~= s.items@.subrange(s.offset as int, u.offset as int));
}

/// A stream that moved forward from a well-formed one is well formed.
pub proof fn lemma_advances_wf<'a, T: StreamItem, X: Position<T>>(
    s: State<'a, T, X>,
    t: State<'a, T, X>,
)
    requires
        s.wf(),
        advances_to(s, t),
    ensures
        t.wf(),
{
    let a = s.items@.subrange(s.offset as int, t.offset as int);
    lemma_advance_room(s.position, a, s.rest().len());
}

} // verus!
