use dl_list::concurrent::ConcurrentDeque;
use dl_list::dl_list::DoubleLinkList;
use std::cell::Cell;
use std::rc::Rc;

#[test]
fn concurrent_deque_in_one_thread() {
    let ddl = ConcurrentDeque::new();
    assert!(ddl.is_empty());
    assert_eq!(ddl.pop_front(), None);
    assert_eq!(ddl.pop_back(), None);
    assert_eq!(ddl.get_head(), None);
    assert_eq!(ddl.get_tail(), None);
    assert!(!ddl.head_check(|_| true));
    assert!(!ddl.tail_check(|_| true));

    for i in 1..=5 {
        ddl.push_back(i);
    }
    ddl.push_front(0);
    assert_eq!(ddl.len(), 6);
    assert!(!ddl.is_empty());
    assert_eq!(ddl.get_head(), Some(0));
    assert_eq!(ddl.get_tail(), Some(5));
    assert!(ddl.head_check(|&value| value == 0));
    assert!(ddl.tail_check(|&value| value == 5));
    assert!(ddl.contains(&3));
    assert!(!ddl.contains(&6));

    let seen = Cell::new(99);
    ddl.head_inspect(|&value| seen.set(value));
    assert_eq!(seen.get(), 0);
    ddl.tail_inspect(|&value| seen.set(value));
    assert_eq!(seen.get(), 5);

    assert_eq!(ddl.pop_front(), Some(0));
    assert_eq!(ddl.pop_back(), Some(5));
    let mut list = ddl.into_inner();
    assert_eq!(list.len(), 4);
    assert_eq!(list.pop_head(), Some(1));
    assert_eq!(list.pop_tail(), Some(4));
}

#[test]
fn single_element_is_popped_once_through_shared_references() {
    let ddl = ConcurrentDeque::new();
    ddl.push_back(1);
    let first = &ddl;
    let second = &ddl;
    assert_eq!(first.pop_front(), Some(1));
    assert_eq!(second.pop_back(), None);
    assert!(ddl.is_empty());
}

#[test]
fn two_pushes_through_shared_references_are_both_kept() {
    let ddl = ConcurrentDeque::new();
    let first = &ddl;
    let second = &ddl;
    first.push_front(1);
    second.push_front(2);
    assert!(ddl.contains(&1));
    assert!(ddl.contains(&2));
    assert_eq!(ddl.len(), 2);
}

#[test]
fn from_list_guards_the_list_it_is_given() {
    let mut list = DoubleLinkList::new();
    list.push_tail(1);
    list.push_tail(2);
    let ddl = ConcurrentDeque::from_list(list);
    assert_eq!(ddl.len(), 2);
    assert_eq!(ddl.pop_back(), Some(2));
    assert_eq!(ddl.pop_back(), Some(1));
    assert_eq!(ddl.pop_back(), None);
}

struct Tally {
    drops: Rc<Cell<usize>>,
}

impl Drop for Tally {
    fn drop(&mut self) {
        self.drops.set(self.drops.get() + 1);
    }
}

#[test]
fn destroy_releases_every_element_once() {
    let drops = Rc::new(Cell::new(0usize));
    let ddl = ConcurrentDeque::new();
    for _ in 0..10 {
        ddl.push_back(Tally { drops: drops.clone() });
        ddl.push_front(Tally { drops: drops.clone() });
    }
    drop(ddl.pop_front());
    assert_eq!(drops.get(), 1);
    ddl.destroy();
    assert_eq!(drops.get(), 20);
}
