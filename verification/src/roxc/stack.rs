//! A stack that the compiler keeps scopes on.
use vstd::prelude::*;

verus! {

/// A last-in, first-out stack of items.
#[derive(Debug)]
pub struct Stack<T> {
    stack: Vec<T>,
}

impl<T> View for Stack<T> {
    type V = Seq<T>;

    /// The items from the bottom of the stack to its top.
    closed spec fn view(&self) -> Seq<T> {
        self.stack@
    }
}

impl<T> Stack<T> {
    /// An empty stack.
    pub fn new() -> (r: Self)
        ensures
            r@ == Seq::<T>::empty(),
    {
        Stack { stack: Vec::new() }
    }

    /// Puts `item` on top of the stack.
    pub fn push(&mut self, item: T)
        ensures
            final(self)@ == old(self)@.push(item),
    {
        self.stack.push(item);
    }

    /// Takes the top item off the stack; `None` when the stack is empty.
    pub fn pop(&mut self) -> (r: Option<T>)
        ensures
            old(self)@.len() == 0 ==> r is None && final(self)@ == old(self)@,
            old(self)@.len() > 0 ==> r == Some(old(self)@.last()) && final(self)@ == old(self)@.drop_last(),
    {
        self.stack.pop()
    }

    /// The top item of a stack that is not empty.
    pub fn top(&self) -> (r: &T)
        requires
            self@.len() > 0,
        ensures
            *r == self@.last(),
    {
        let n = self.stack.len();
        &self.stack[n - 1]
    }

    /// The top item of a stack that is not empty, to be changed in place.
    pub fn top_mut(&mut self) -> (r: &mut T)
        requires
            old(self)@.len() > 0,
        ensures
            *r == old(self)@.last(),
            final(self)@ == old(self)@.update(old(self)@.len() - 1, *final(r)),
    {
        let n = self.stack.len();
        &mut self.stack[n - 1]
    }

    /// Replaces the item at `index`, counted from the bottom.
    pub fn set(&mut self, index: usize, value: T)
        requires
            index < old(self)@.len(),
        ensures
            final(self)@ == old(self)@.update(index as int, value),
    {
        self.stack.set(index, value);
    }

    /// The item at `index`, counted from the bottom.
    pub fn get(&self, index: usize) -> (r: &T)
        requires
            index < self@.len(),
        ensures
            *r == self@[index as int],
    {
        &self.stack[index]
    }

    /// The items from the bottom of the stack to its top.
    pub fn get_inner_array(&self) -> (r: &Vec<T>)
        ensures
            r@ == self@,
    {
        &self.stack
    }
}

/// Popping right after pushing gives back the pushed item and leaves the
/// stack as it was; the pushed item is then the top.
pub proof fn lemma_push_then_pop<T>(items: Seq<T>, item: T)
    ensures
        items.push(item).len() > 0,
        items.push(item).last() == item,
        items.push(item).drop_last() == items,
{
    assert(items.push(item).drop_last() =~= items);
}

/// Reading an index right after replacing it gives back the new item, and
/// the other items are unchanged.
pub proof fn lemma_set_then_get<T>(items: Seq<T>, index: int, value: T)
    requires
        0 <= index < items.len(),
    ensures
        items.update(index, value)[index] == value,
        items.update(index, value).len() == items.len(),
        forall|j: int| 0 <= j < items.len() && j != index ==> #[trigger] items.update(index, value)[j] == items[j],
{
}

} // verus!
