use vstd::prelude::*;
use vstd::rwlock::RwLock;
use vstd::std_specs::cmp::PartialEqSpec;
use crate::dl_list::DoubleLinkList;
use crate::model::{
    after_pop_head, after_pop_tail, after_push_head, after_push_tail, popped_head, popped_tail,
};

verus! {

/// A double-ended list that any number of threads may use through a shared
/// reference.
///
/// The list sits behind one reader-writer lock. A structural operation takes
/// the list out under the write lock, changes it and puts it back; a read-only
/// operation works on a shared borrow under the read lock. Each operation
/// takes effect at one instant while it holds the lock.
///
/// What other threads do before and after that instant is not known to an
/// operation. What is known is what the deque admits: a set of contents, fixed
/// when the deque is made, that the contents belong to at every instant. The
/// lock accepts a list back only where its structural invariant holds and the
/// deque admits its contents. So each operation asks that it keeps the
/// contents admitted, and says of its result that it is what the operation
/// gives on some admitted contents: those that it found under the lock.
///
/// A closure handed to an inspection runs while the read lock is held: one
/// that panics leaves the lock held, and later writers wait for ever.
///
/// Dropping the deque does not visit the list: call `destroy` or `into_inner`
/// to release the elements.
#[verifier::reject_recursive_types(T)]
pub struct ConcurrentDeque<T> {
    list: RwLock<DoubleLinkList<T>, spec_fn(DoubleLinkList<T>) -> bool>,
    allowed: Ghost<spec_fn(Seq<T>) -> bool>,
}

impl<T> ConcurrentDeque<T> {
    /// The lock holds exactly the well-formed lists whose contents the deque
    /// admits.
    #[verifier::type_invariant]
    spec fn lock_holds_admitted_lists(self) -> bool {
        forall|list: DoubleLinkList<T>|
            #[trigger] self.list.inv(list) <==> list.wf() && (self.allowed@)(list@)
    }

    /// Whether the deque may hold `items`, front to back, at some instant.
    pub closed spec fn admits(&self, items: Seq<T>) -> bool {
        (self.allowed@)(items)
    }

    /// A deque that starts out with `list` and admits the contents that
    /// `allowed` holds of.
    pub fn with_invariant(list: DoubleLinkList<T>, Ghost(allowed): Ghost<spec_fn(Seq<T>) -> bool>) -> (res:
        Self)
        requires
            list.wf(),
            allowed(list@),
        ensures
            forall|items: Seq<T>| #[trigger] res.admits(items) <==> allowed(items),
    {
        let ghost holds = |guarded: DoubleLinkList<T>| guarded.wf() && allowed(guarded@);
        ConcurrentDeque { list: RwLock::new(list, Ghost(holds)), allowed: Ghost(allowed) }
    }

    /// A deque that starts out empty and admits every contents.
    pub fn new() -> (res: Self)
        ensures
            forall|items: Seq<T>| #[trigger] res.admits(items),
    {
        Self::with_invariant(DoubleLinkList::new(), Ghost(|items: Seq<T>| true))
    }

    /// A deque that starts out with `list` and admits every contents.
    pub fn from_list(list: DoubleLinkList<T>) -> (res: Self)
        requires
            list.wf(),
        ensures
            forall|items: Seq<T>| #[trigger] res.admits(items),
    {
        Self::with_invariant(list, Ghost(|items: Seq<T>| true))
    }

    /// Adds `value` as the first element of the list as it is when the write
    /// lock is granted.
    pub fn push_front(&self, value: T)
        requires
            forall|items: Seq<T>|
                self.admits(items) ==> #[trigger] self.admits(after_push_head(items, value)),
    {
        proof {
            use_type_invariant(self);
        }
        let (mut list, handle) = self.list.acquire_write();
        let ghost found = list@;
        proof {
            assert(self.list.inv(list));
            assert(self.admits(found));
        }
        list.push_head(value);
        proof {
            assert(self.admits(after_push_head(found, value)));
            assert(self.list.inv(list));
        }
        handle.release_write(list);
    }

    /// Adds `value` as the last element of the list as it is when the write
    /// lock is granted.
    pub fn push_back(&self, value: T)
        requires
            forall|items: Seq<T>|
                self.admits(items) ==> #[trigger] self.admits(after_push_tail(items, value)),
    {
        proof {
            use_type_invariant(self);
        }
        let (mut list, handle) = self.list.acquire_write();
        let ghost found = list@;
        proof {
            assert(self.list.inv(list));
            assert(self.admits(found));
        }
        list.push_tail(value);
        proof {
            assert(self.admits(after_push_tail(found, value)));
            assert(self.list.inv(list));
        }
        handle.release_write(list);
    }

    /// Removes the first element of the list as it is when the write lock is
    /// granted, and returns it; `None` where that list is empty.
    pub fn pop_front(&self) -> (res: Option<T>)
        requires
            forall|items: Seq<T>| self.admits(items) ==> #[trigger] self.admits(after_pop_head(items)),
        ensures
            exists|items: Seq<T>| #[trigger] self.admits(items) && res == popped_head(items),
    {
        proof {
            use_type_invariant(self);
        }
        let (mut list, handle) = self.list.acquire_write();
        let ghost found = list@;
        proof {
            assert(self.list.inv(list));
            assert(self.admits(found));
        }
        let res = list.pop_head();
        proof {
            assert(self.admits(after_pop_head(found)));
            assert(self.list.inv(list));
        }
        handle.release_write(list);
        proof {
            assert(self.admits(found) && res == popped_head(found));
        }
        res
    }

    /// Removes the last element of the list as it is when the write lock is
    /// granted, and returns it; `None` where that list is empty.
    pub fn pop_back(&self) -> (res: Option<T>)
        requires
            forall|items: Seq<T>| self.admits(items) ==> #[trigger] self.admits(after_pop_tail(items)),
        ensures
            exists|items: Seq<T>| #[trigger] self.admits(items) && res == popped_tail(items),
    {
        proof {
            use_type_invariant(self);
        }
        let (mut list, handle) = self.list.acquire_write();
        let ghost found = list@;
        proof {
            assert(self.list.inv(list));
            assert(self.admits(found));
        }
        let res = list.pop_tail();
        proof {
            assert(self.admits(after_pop_tail(found)));
            assert(self.list.inv(list));
        }
        handle.release_write(list);
        proof {
            assert(self.admits(found) && res == popped_tail(found));
        }
        res
    }

    /// The number of elements of the list as it is while the read lock is held.
    pub fn len(&self) -> (res: usize)
        ensures
            exists|items: Seq<T>| #[trigger] self.admits(items) && res == items.len(),
    {
        proof {
            use_type_invariant(self);
        }
        let handle = self.list.acquire_read();
        let res = handle.borrow().len();
        proof {
            assert(self.admits(handle.view()@) && res == handle.view()@.len());
        }
        handle.release_read();
        res
    }

    /// Whether the list is empty while the read lock is held.
    pub fn is_empty(&self) -> (res: bool)
        ensures
            exists|items: Seq<T>| #[trigger] self.admits(items) && res == (items.len() == 0),
    {
        proof {
            use_type_invariant(self);
        }
        let handle = self.list.acquire_read();
        let res = handle.borrow().is_empty();
        proof {
            assert(self.admits(handle.view()@) && res == (handle.view()@.len() == 0));
        }
        handle.release_read();
        res
    }

    /// Hands the first element to `f` under the read lock; does nothing where
    /// the list is empty.
    pub fn head_inspect<F: FnOnce(&T)>(&self, f: F)
        requires
            forall|items: Seq<T>|
                #[trigger] self.admits(items) && items.len() > 0 ==> call_requires(
                    f,
                    (&items[0],),
                ),
        ensures
            exists|items: Seq<T>|
                #[trigger] self.admits(items) && (items.len() > 0 ==> call_ensures(
                    f,
                    (&items[0],),
                    (),
                )),
    {
        proof {
            use_type_invariant(self);
        }
        let handle = self.list.acquire_read();
        let ghost found = handle.view()@;
        proof {
            assert(self.admits(found));
        }
        handle.borrow().head_inspect(f);
        handle.release_read();
    }

    /// Hands the last element to `f` under the read lock; does nothing where
    /// the list is empty.
    pub fn tail_inspect<F: FnOnce(&T)>(&self, f: F)
        requires
            forall|items: Seq<T>|
                #[trigger] self.admits(items) && items.len() > 0 ==> call_requires(
                    f,
                    (&items.last(),),
                ),
        ensures
            exists|items: Seq<T>|
                #[trigger] self.admits(items) && (items.len() > 0 ==> call_ensures(
                    f,
                    (&items.last(),),
                    (),
                )),
    {
        proof {
            use_type_invariant(self);
        }
        let handle = self.list.acquire_read();
        let ghost found = handle.view()@;
        proof {
            assert(self.admits(found));
        }
        handle.borrow().tail_inspect(f);
        handle.release_read();
    }

    /// What `f` says of the first element under the read lock; `false` where
    /// the list is empty.
    pub fn head_check<F: FnOnce(&T) -> bool>(&self, f: F) -> (res: bool)
        requires
            forall|items: Seq<T>|
                #[trigger] self.admits(items) && items.len() > 0 ==> call_requires(
                    f,
                    (&items[0],),
                ),
        ensures
            exists|items: Seq<T>|
                {
                    &&& #[trigger] self.admits(items)
                    &&& items.len() == 0 ==> !res
                    &&& items.len() > 0 ==> call_ensures(f, (&items[0],), res)
                },
    {
        proof {
            use_type_invariant(self);
        }
        let handle = self.list.acquire_read();
        let ghost found = handle.view()@;
        proof {
            assert(self.admits(found));
        }
        let res = handle.borrow().head_check(f);
        handle.release_read();
        res
    }

    /// What `f` says of the last element under the read lock; `false` where
    /// the list is empty.
    pub fn tail_check<F: FnOnce(&T) -> bool>(&self, f: F) -> (res: bool)
        requires
            forall|items: Seq<T>|
                #[trigger] self.admits(items) && items.len() > 0 ==> call_requires(
                    f,
                    (&items.last(),),
                ),
        ensures
            exists|items: Seq<T>|
                {
                    &&& #[trigger] self.admits(items)
                    &&& items.len() == 0 ==> !res
                    &&& items.len() > 0 ==> call_ensures(f, (&items.last(),), res)
                },
    {
        proof {
            use_type_invariant(self);
        }
        let handle = self.list.acquire_read();
        let ghost found = handle.view()@;
        proof {
            assert(self.admits(found));
        }
        let res = handle.borrow().tail_check(f);
        handle.release_read();
        res
    }

    /// Ends the sharing and hands out the list as it then is: well-formed, and
    /// with contents that the deque admits.
    pub fn into_inner(self) -> (res: DoubleLinkList<T>)
        ensures
            res.wf(),
            self.admits(res@),
    {
        proof {
            use_type_invariant(&self);
        }
        self.list.into_inner()
    }

    /// Ends the sharing and releases every element, front first.
    pub fn destroy(self) {
        let mut list = self.into_inner();
        list.drain();
    }
}

impl<T: Clone> ConcurrentDeque<T> {
    /// A clone of the first element of the list as it is while the read lock
    /// is held; `None` where that list is empty.
    pub fn get_head(&self) -> (res: Option<T>)
        ensures
            exists|items: Seq<T>|
                {
                    &&& #[trigger] self.admits(items)
                    &&& res is Some <==> items.len() > 0
                    &&& res is Some ==> cloned(items[0], res.unwrap())
                },
    {
        proof {
            use_type_invariant(self);
        }
        let handle = self.list.acquire_read();
        let ghost found = handle.view()@;
        proof {
            assert(self.admits(found));
        }
        let res = handle.borrow().get_head();
        handle.release_read();
        res
    }

    /// A clone of the last element of the list as it is while the read lock
    /// is held; `None` where that list is empty.
    pub fn get_tail(&self) -> (res: Option<T>)
        ensures
            exists|items: Seq<T>|
                {
                    &&& #[trigger] self.admits(items)
                    &&& res is Some <==> items.len() > 0
                    &&& res is Some ==> cloned(items.last(), res.unwrap())
                },
    {
        proof {
            use_type_invariant(self);
        }
        let handle = self.list.acquire_read();
        let ghost found = handle.view()@;
        proof {
            assert(self.admits(found));
        }
        let res = handle.borrow().get_tail();
        handle.release_read();
        res
    }
}

impl<T: PartialEq> ConcurrentDeque<T> {
    /// Whether the list, as it is while the read lock is held, holds an
    /// element equal to `item`.
    pub fn contains(&self, item: &T) -> (res: bool)
        ensures
            exists|items: Seq<T>|
                {
                    &&& #[trigger] self.admits(items)
                    &&& T::obeys_eq_spec() ==> res == exists|i: int|
                        0 <= i < items.len() && #[trigger] items[i].eq_spec(item)
                },
    {
        proof {
            use_type_invariant(self);
        }
        let handle = self.list.acquire_read();
        let ghost found = handle.view()@;
        proof {
            assert(self.admits(found));
        }
        let res = handle.borrow().contains(item);
        handle.release_read();
        res
    }
}

} // verus!
