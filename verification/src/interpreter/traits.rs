//! Collections the interpreter appends to.
use vstd::prelude::*;

verus! {

/// A collection that items are appended to, giving the position of the
/// item.
pub trait Push<T> {
    fn push(&mut self, t: T) -> usize;
}

} // verus!
