use vstd::prelude::*;

verus! {

/// The elements after `value` has been added at the front of `items`.
pub open spec fn after_push_head<T>(items: Seq<T>, value: T) -> Seq<T> {
    seq![value] + items
}

/// The elements after `value` has been added at the back of `items`.
pub open spec fn after_push_tail<T>(items: Seq<T>, value: T) -> Seq<T> {
    items.push(value)
}

/// What a removal at the front hands out: the first element, or nothing.
pub open spec fn popped_head<T>(items: Seq<T>) -> Option<T> {
    if items.len() == 0 {
        None
    } else {
        Some(items[0])
    }
}

/// The elements that a removal at the front leaves.
pub open spec fn after_pop_head<T>(items: Seq<T>) -> Seq<T> {
    if items.len() == 0 {
        items
    } else {
        items.drop_first()
    }
}

/// What a removal at the back hands out: the last element, or nothing.
pub open spec fn popped_tail<T>(items: Seq<T>) -> Option<T> {
    if items.len() == 0 {
        None
    } else {
        Some(items.last())
    }
}

/// The elements that a removal at the back leaves.
pub open spec fn after_pop_tail<T>(items: Seq<T>) -> Seq<T> {
    if items.len() == 0 {
        items
    } else {
        items.drop_last()
    }
}

/// One structural operation on a list.
pub enum Operation<T> {
    PushHead(T),
    PushTail(T),
    PopHead,
    PopTail,
}

/// A push of `value`, at the head or at the tail.
pub open spec fn push_at<T>(at_head: bool, value: T) -> Operation<T> {
    if at_head {
        Operation::PushHead(value)
    } else {
        Operation::PushTail(value)
    }
}

/// A pop, at the head or at the tail.
pub open spec fn pop_at<T>(at_head: bool) -> Operation<T> {
    if at_head {
        Operation::PopHead
    } else {
        Operation::PopTail
    }
}

/// The elements after `op` has been carried out on `items`.
pub open spec fn after<T>(items: Seq<T>, op: Operation<T>) -> Seq<T> {
    match op {
        Operation::PushHead(value) => after_push_head(items, value),
        Operation::PushTail(value) => after_push_tail(items, value),
        Operation::PopHead => after_pop_head(items),
        Operation::PopTail => after_pop_tail(items),
    }
}

/// What `op` hands out when carried out on `items`.
pub open spec fn handed_out<T>(items: Seq<T>, op: Operation<T>) -> Option<T> {
    match op {
        Operation::PushHead(_) => None,
        Operation::PushTail(_) => None,
        Operation::PopHead => popped_head(items),
        Operation::PopTail => popped_tail(items),
    }
}

/// The elements after the operations `ops` have been carried out in turn.
pub open spec fn after_all<T>(items: Seq<T>, ops: Seq<Operation<T>>) -> Seq<T>
    decreases ops.len(),
{
    if ops.len() == 0 {
        items
    } else {
        after_all(after(items, ops[0]), ops.drop_first())
    }
}

/// How many of `ops` are pushes.
pub open spec fn pushes<T>(ops: Seq<Operation<T>>) -> nat
    decreases ops.len(),
{
    if ops.len() == 0 {
        0
    } else {
        let rest = pushes(ops.drop_first());
        match ops[0] {
            Operation::PushHead(_) => rest + 1,
            Operation::PushTail(_) => rest + 1,
            _ => rest,
        }
    }
}

/// How many of `ops`, carried out in turn from `items`, are pops that hand out
/// an element.
pub open spec fn successful_pops<T>(items: Seq<T>, ops: Seq<Operation<T>>) -> nat
    decreases ops.len(),
{
    if ops.len() == 0 {
        0
    } else {
        let rest = successful_pops(after(items, ops[0]), ops.drop_first());
        if handed_out(items, ops[0]) is Some {
            rest + 1
        } else {
            rest
        }
    }
}

/// The elements after every element of `values` has been pushed to the back,
/// first to last.
pub open spec fn after_push_tail_all<T>(items: Seq<T>, values: Seq<T>) -> Seq<T>
    decreases values.len(),
{
    if values.len() == 0 {
        items
    } else {
        after_push_tail_all(after_push_tail(items, values[0]), values.drop_first())
    }
}

/// The elements after every element of `values` has been pushed to the front,
/// first to last.
pub open spec fn after_push_head_all<T>(items: Seq<T>, values: Seq<T>) -> Seq<T>
    decreases values.len(),
{
    if values.len() == 0 {
        items
    } else {
        after_push_head_all(after_push_head(items, values[0]), values.drop_first())
    }
}

/// What `count` removals at the front hand out, in the order of the removals;
/// a removal from an empty list hands out nothing.
pub open spec fn popped_head_all<T>(items: Seq<T>, count: nat) -> Seq<T>
    decreases count,
{
    if count == 0 {
        Seq::empty()
    } else {
        match popped_head(items) {
            Some(value) => seq![value] + popped_head_all(after_pop_head(items), (count - 1) as nat),
            None => popped_head_all(after_pop_head(items), (count - 1) as nat),
        }
    }
}

/// What `count` removals at the back hand out, in the order of the removals;
/// a removal from an empty list hands out nothing.
pub open spec fn popped_tail_all<T>(items: Seq<T>, count: nat) -> Seq<T>
    decreases count,
{
    if count == 0 {
        Seq::empty()
    } else {
        match popped_tail(items) {
            Some(value) => seq![value] + popped_tail_all(after_pop_tail(items), (count - 1) as nat),
            None => popped_tail_all(after_pop_tail(items), (count - 1) as nat),
        }
    }
}

} // verus!
