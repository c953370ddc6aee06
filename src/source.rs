//! Owned input: a buffer that lends out streams over itself.

use crate::item::StreamItem;
use crate::position::Position;
use crate::state::State;
use vstd::prelude::*;

verus! {

/// An owned buffer of items, from which streams borrow.
#[derive(Clone, Debug)]
pub struct Source<T> {
    pub items: Vec<T>,
}

impl<T: StreamItem> Source<T> {
    /// A buffer that owns `items`.
    pub fn new(items: Vec<T>) -> (r: Self)
        ensures
            r.items@ == items@,
    {
        Source { items }
    }

    /// A stream over the whole buffer, starting at the start position.
    pub fn stream<X: Position<T>>(&self) -> (r: State<'_, T, X>)
        requires
            X::spec_start().room(self.items@.len()),
        ensures
            r.wf(),
            r.rest() == self.items@,
            r.position == X::spec_start(),
    {
        State::from(self.items.as_slice())
    }
}

impl Source<char> {
    /// A buffer holding the characters of `text`.
    pub fn from_text(text: &str) -> (r: Self)
        ensures
            r.items@ == text@,
    {
        let mut items: Vec<char> = Vec::new();
        for c in it: text.chars()
            invariant
                it.seq() == text@,
                items@ == it.seq().take(it.index() as int),
        {
            items.push(c);
            assert(items@ =~= it.seq().take(it.index() + 1));
        }
        assert(items@ =~= text@);
        Source { items }
    }
}

impl Source<u8> {
    /// A buffer holding the bytes of `bytes`.
    pub fn from_bytes(bytes: &[u8]) -> (r: Self)
        ensures
            r.items@ == bytes@,
    {
        Source { items: crate::error::copy_items(bytes) }
    }
}

} // verus!
