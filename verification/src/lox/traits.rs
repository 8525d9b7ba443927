//! Collections the bytecode compiler appends to.
use vstd::prelude::*;

verus! {

/// A collection that items are appended to.
pub trait Push<T> {
    fn push(&mut self, t: T);
}

/// A collection that items are appended to together with their line,
/// giving the position of the item.
pub trait PushLine<T> {
    fn push_line(&mut self, t: T, line: i32) -> usize;
}

} // verus!
