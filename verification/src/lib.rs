//! Infrastructure for hand-written lexers and parsers: a slot arena that
//! hands out stable handles and reuses freed slots, and a buffered,
//! backtracking cursor over any pull-based sequence of items.

use vstd::prelude::*;

pub mod cursor;
pub mod lexer;
pub mod storage;

verus! {

/// Reads an optional reference as the optional value it points at.
pub open spec fn read_opt<T>(r: Option<&T>) -> Option<T> {
    match r {
        Some(v) => Some(*v),
        None => None,
    }
}

/// Discards any value; lets a caller mark a result as deliberately unused.
pub trait Ignore {
    fn ignore(self);
}

impl<T> Ignore for T {
    fn ignore(self) {
    }
}

} // verus!
