use dl_list::dl_list::{DoubleLinkList, Node};
use dl_list::model::Operation;
use std::cell::Cell;
use std::rc::Rc;

#[test]
fn test_ddl_single_thread() {
    let mut ddl = DoubleLinkList::new();

    for i in 0..10 {
        ddl.push_tail(i);
    }

    for i in 0..10 {
        ddl.contains(&i);
    }

    assert_eq!(ddl.len(), 10);

    ddl.push_head(10);

    assert!(ddl.head_check(|&val| val == 10));
    assert_eq!(ddl.len(), 11);
}

#[test]
fn push_tail_pop_head_keeps_order() {
    let mut ddl = DoubleLinkList::new();
    for i in 1..=100u32 {
        ddl.push_tail(i);
    }
    for i in 1..=100u32 {
        assert_eq!(ddl.pop_head(), Some(i));
    }
    assert_eq!(ddl.pop_head(), None);
    assert!(ddl.is_empty());
}

#[test]
fn push_head_pop_tail_keeps_order() {
    let mut ddl = DoubleLinkList::new();
    for i in 1..=100u32 {
        ddl.push_head(i);
    }
    for i in 1..=100u32 {
        assert_eq!(ddl.pop_tail(), Some(i));
    }
    assert_eq!(ddl.pop_tail(), None);
    assert_eq!(ddl.len(), 0);
}

#[test]
fn push_and_pop_at_one_end_is_last_in_first_out() {
    let mut ddl = DoubleLinkList::new();
    ddl.push_tail(1);
    ddl.push_tail(2);
    ddl.push_tail(3);
    assert_eq!(ddl.pop_tail(), Some(3));
    assert_eq!(ddl.pop_tail(), Some(2));
    ddl.push_head(7);
    ddl.push_head(8);
    assert_eq!(ddl.pop_head(), Some(8));
    assert_eq!(ddl.pop_head(), Some(7));
    assert_eq!(ddl.pop_head(), Some(1));
    assert_eq!(ddl.pop_head(), None);
}

#[test]
fn new_list_is_empty() {
    let mut ddl: DoubleLinkList<u8> = DoubleLinkList::new();
    assert!(ddl.is_empty());
    assert_eq!(ddl.len(), 0);
    assert_eq!(ddl.head(), None);
    assert_eq!(ddl.tail(), None);
    assert_eq!(ddl.pop_head(), None);
    assert_eq!(ddl.pop_tail(), None);
    assert_eq!(ddl.get_head(), None);
    assert_eq!(ddl.get_tail(), None);
    assert!(!ddl.contains(&0));
    assert!(!ddl.head_check(|_| true));
    assert!(!ddl.tail_check(|_| true));
}

#[test]
fn length_counts_pushes_and_successful_pops() {
    let mut ddl = DoubleLinkList::new();
    let mut pushes = 0usize;
    let mut pops = 0usize;
    for round in 0..50u32 {
        ddl.push_tail(round);
        pushes += 1;
        if round % 3 == 0 {
            ddl.push_head(round);
            pushes += 1;
        }
        if round % 2 == 0 {
            if ddl.pop_head().is_some() {
                pops += 1;
            }
        }
        if round % 5 == 0 {
            if ddl.pop_tail().is_some() {
                pops += 1;
            }
        }
        assert_eq!(ddl.len(), pushes - pops);
        assert_eq!(ddl.is_empty(), ddl.len() == 0);
    }
    while ddl.pop_tail().is_some() {
        pops += 1;
        assert_eq!(ddl.len(), pushes - pops);
    }
    assert_eq!(pushes, pops);
    assert!(ddl.is_empty());
}

#[test]
fn single_element_is_popped_once() {
    let mut ddl = DoubleLinkList::new();
    ddl.push_tail(1);
    assert_eq!(ddl.head(), ddl.tail());
    assert_eq!(ddl.pop_head(), Some(1));
    assert_eq!(ddl.pop_head(), None);
    assert!(ddl.is_empty());

    ddl.push_tail(2);
    assert_eq!(ddl.pop_head(), Some(2));
    assert_eq!(ddl.pop_tail(), None);

    ddl.push_head(3);
    assert_eq!(ddl.pop_tail(), Some(3));
    assert_eq!(ddl.pop_head(), None);
    assert_eq!(ddl.len(), 0);
}

#[test]
fn two_pushes_at_one_end_are_both_kept() {
    let mut ddl = DoubleLinkList::new();
    ddl.push_head(1);
    ddl.push_head(2);
    assert!(ddl.contains(&1));
    assert!(ddl.contains(&2));
    assert!(!ddl.contains(&3));
    assert_eq!(ddl.len(), 2);
}

#[test]
fn push_then_pop_or_pop_then_push() {
    let mut ddl = DoubleLinkList::new();
    assert_eq!(ddl.pop_head(), None);
    ddl.push_head(1);
    assert!(ddl.contains(&1));
    assert_eq!(ddl.len(), 1);

    let mut other = DoubleLinkList::new();
    other.push_head(1);
    assert_eq!(other.pop_head(), Some(1));
    assert!(!other.contains(&1));
    assert_eq!(other.len(), 0);
}

#[test]
fn contains_finds_every_element_and_no_other() {
    let mut ddl = DoubleLinkList::new();
    for i in 0..20u32 {
        ddl.push_tail(i * 2);
    }
    for i in 0..40u32 {
        assert_eq!(ddl.contains(&i), i % 2 == 0);
    }
    assert_eq!(ddl.pop_head(), Some(0));
    assert_eq!(ddl.pop_tail(), Some(38));
    assert!(!ddl.contains(&0));
    assert!(!ddl.contains(&38));
    assert!(ddl.contains(&2));
    assert!(ddl.contains(&36));
}

#[test]
fn ends_are_read_without_being_removed() {
    let mut ddl = DoubleLinkList::new();
    ddl.push_tail(String::from("first"));
    ddl.push_tail(String::from("middle"));
    ddl.push_tail(String::from("last"));

    assert_eq!(ddl.get_head(), Some(String::from("first")));
    assert_eq!(ddl.get_tail(), Some(String::from("last")));
    assert!(ddl.head_check(|value| value == "first"));
    assert!(!ddl.head_check(|value| value == "last"));
    assert!(ddl.tail_check(|value| value == "last"));
    assert!(!ddl.tail_check(|value| value == "first"));

    let seen = Cell::new(0usize);
    ddl.head_inspect(|value| seen.set(value.len()));
    assert_eq!(seen.get(), 5);
    ddl.tail_inspect(|value| seen.set(value.len()));
    assert_eq!(seen.get(), 4);
    assert_eq!(ddl.len(), 3);
}

#[test]
fn inspection_of_an_empty_list_calls_nothing() {
    let ddl: DoubleLinkList<u32> = DoubleLinkList::new();
    let called = Cell::new(false);
    ddl.head_inspect(|_| called.set(true));
    ddl.tail_inspect(|_| called.set(true));
    assert!(!called.get());
}

#[test]
fn inspection_after_a_pop_sees_the_next_element_or_nothing() {
    let mut ddl = DoubleLinkList::new();
    ddl.push_tail(1);
    ddl.push_tail(2);
    assert_eq!(ddl.pop_head(), Some(1));
    assert!(ddl.head_check(|&value| value == 2));
    assert_eq!(ddl.pop_head(), Some(2));
    assert!(!ddl.head_check(|_| true));
    assert!(!ddl.tail_check(|_| true));
}

#[test]
fn slots_are_used_again_after_a_pop() {
    let mut ddl = DoubleLinkList::new();
    for round in 0..1000u32 {
        ddl.push_tail(round);
        ddl.push_head(round + 1);
        assert_eq!(ddl.pop_tail(), Some(round));
        assert_eq!(ddl.pop_head(), Some(round + 1));
    }
    assert!(ddl.is_empty());
    ddl.push_tail(5);
    assert_eq!(ddl.head(), ddl.tail());
    assert!(ddl.head().is_some());
}

#[test]
fn apply_carries_out_each_operation() {
    let mut ddl = DoubleLinkList::new();
    assert_eq!(ddl.apply(Operation::PopHead), None);
    assert_eq!(ddl.apply(Operation::PushTail(1)), None);
    assert_eq!(ddl.apply(Operation::PushTail(2)), None);
    assert_eq!(ddl.apply(Operation::PushHead(0)), None);
    assert_eq!(ddl.len(), 3);
    assert_eq!(ddl.apply(Operation::PopTail), Some(2));
    assert_eq!(ddl.apply(Operation::PopHead), Some(0));
    assert_eq!(ddl.apply(Operation::PopHead), Some(1));
    assert_eq!(ddl.apply(Operation::PopTail), None);
    assert!(ddl.is_empty());
}

struct Counted {
    live: Rc<Cell<usize>>,
    drops: Rc<Cell<usize>>,
}

impl Counted {
    fn new(live: &Rc<Cell<usize>>, drops: &Rc<Cell<usize>>) -> Self {
        live.set(live.get() + 1);
        Counted { live: live.clone(), drops: drops.clone() }
    }
}

impl Drop for Counted {
    fn drop(&mut self) {
        self.live.set(self.live.get() - 1);
        self.drops.set(self.drops.get() + 1);
    }
}

#[test]
fn dropping_the_list_releases_every_element_once() {
    let live = Rc::new(Cell::new(0usize));
    let drops = Rc::new(Cell::new(0usize));
    {
        let mut ddl = DoubleLinkList::new();
        for _ in 0..25 {
            ddl.push_tail(Counted::new(&live, &drops));
            ddl.push_head(Counted::new(&live, &drops));
        }
        let popped = ddl.pop_head();
        assert!(popped.is_some());
        assert_eq!(live.get(), 50);
        drop(popped);
        assert_eq!(live.get(), 49);
    }
    assert_eq!(live.get(), 0);
    assert_eq!(drops.get(), 50);
}

#[test]
fn drain_releases_every_element_once() {
    let live = Rc::new(Cell::new(0usize));
    let drops = Rc::new(Cell::new(0usize));
    let mut ddl = DoubleLinkList::new();
    for _ in 0..10 {
        ddl.push_tail(Counted::new(&live, &drops));
    }
    assert_eq!(live.get(), 10);
    ddl.drain();
    assert_eq!(live.get(), 0);
    assert_eq!(drops.get(), 10);
    assert!(ddl.is_empty());
    assert_eq!(ddl.head(), None);
    assert_eq!(ddl.tail(), None);
}

#[test]
fn node_holds_one_value() {
    let mut node = Node::new(5);
    assert_eq!(node.get_value(), 5);
    assert!(node.check_value(|&value| value == 5));
    node.set_value(6);
    assert_eq!(node.get_value(), 6);
    assert!(!node.check_value(|&value| value == 5));
    let seen = Cell::new(0);
    node.inspect_value(|&value| seen.set(value));
    assert_eq!(seen.get(), 6);
    assert_eq!(node.remove(), 6);
}
