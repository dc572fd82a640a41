use vstd::prelude::*;
use crate::model::{after_pop_tail, after_push_tail, popped_tail};

verus! {

/// A stack whose top is the last element.
pub struct SharedStack<T> {
    inner_data: Vec<T>,
}

impl<T> View for SharedStack<T> {
    type V = Seq<T>;

    /// The elements from bottom to top.
    closed spec fn view(&self) -> Seq<T> {
        self.inner_data@
    }
}

impl<T> SharedStack<T> {
    /// creates an empty stack
    pub fn new() -> (res: Self)
        ensures
            res@ == Seq::<T>::empty(),
    {
        SharedStack { inner_data: Vec::new() }
    }

    /// Puts `item` on top.
    pub fn push(&mut self, item: T)
        ensures
            final(self)@ == after_push_tail(old(self)@, item),
    {
        self.inner_data.push(item);
    }

    /// Takes the top element off, or returns `None` on an empty stack.
    pub fn pop(&mut self) -> (res: Option<T>)
        ensures
            res == popped_tail(old(self)@),
            final(self)@ == after_pop_tail(old(self)@),
    {
        self.inner_data.pop()
    }

    /// What `f` says of the top element; `false` on an empty stack.
    pub fn peek_check<F: FnOnce(&T) -> bool>(&self, f: F) -> (res: bool)
        requires
            self@.len() > 0 ==> call_requires(f, (&self@.last(),)),
        ensures
            self@.len() == 0 ==> !res,
            self@.len() > 0 ==> call_ensures(f, (&self@.last(),), res),
    {
        let n = self.inner_data.len();
        if n == 0 {
            false
        } else {
            f(&self.inner_data[n - 1])
        }
    }

    /// Hands a reference to the top element to `f`; does nothing on an empty stack.
    pub fn peek_inspect<F: FnOnce(&T)>(&self, f: F)
        requires
            self@.len() > 0 ==> call_requires(f, (&self@.last(),)),
        ensures
            self@.len() > 0 ==> call_ensures(f, (&self@.last(),), ()),
    {
        let n = self.inner_data.len();
        if n > 0 {
            f(&self.inner_data[n - 1])
        }
    }

    /// Whether the stack holds no element.
    pub fn is_empty(&self) -> (res: bool)
        ensures
            res == (self@.len() == 0),
    {
        self.inner_data.len() == 0
    }
}

} // verus!
