//! A parser-combinator engine over a borrowed, position-tracked input stream.
//!
//! A stream ([`state::State`]) is a plain value: a borrowed slice of items, a cursor, and
//! a position ([`position`]) that the cursor carries along. Copying it is a snapshot, so
//! backtracking costs nothing. Owned input lives in a [`source::Source`], which lends
//! streams over itself.
//!
//! Parsers ([`parser::Parser`]) are values composed from primitives ([`token`], [`ascii`],
//! [`unicode`], [`range`]) and combinators ([`choice`], [`seq`], [`many`], [`combinator`]).
//! Each parser states what it does as a specification over the remaining input and the
//! position, and every combinator is proved against the specifications of its parts.
//! Failures are positioned, mergeable errors ([`error`]) that read as text through
//! [`display`]. The laws that relate combinators to one another are in [`laws`].

pub mod item;
pub mod position;
pub mod state;
pub mod source;
pub mod error;
pub mod parser;
pub mod token;
pub mod ascii;
pub mod unicode;
pub mod range;
pub mod choice;
pub mod seq;
pub mod many;
pub mod text;
pub mod combinator;
pub mod laws;
pub mod display;
