use vstd::prelude::*;
use crate::model::{
    after, after_all, after_pop_head, after_pop_tail, after_push_head, after_push_head_all,
    after_push_tail, after_push_tail_all, handed_out, popped_head, popped_head_all, popped_tail,
    pop_at, popped_tail_all, push_at, pushes, successful_pops, Operation,
};

verus! {

/// Pushing `values` to the back appends them, in their order.
pub proof fn lemma_push_tail_all_appends<T>(items: Seq<T>, values: Seq<T>)
    ensures
        after_push_tail_all(items, values) == items + values,
    decreases values.len(),
{
    if values.len() == 0 {
        assert(items + values =~= items);
    } else {
        lemma_push_tail_all_appends(after_push_tail(items, values[0]), values.drop_first());
        assert(after_push_tail(items, values[0]) + values.drop_first() =~= items + values);
    }
}

/// Pushing `values` to the front puts them before the others, last pushed first.
pub proof fn lemma_push_head_all_prepends<T>(items: Seq<T>, values: Seq<T>)
    ensures
        after_push_head_all(items, values) == values.reverse() + items,
    decreases values.len(),
{
    if values.len() == 0 {
        assert(values.reverse() + items =~= items);
    } else {
        lemma_push_head_all_prepends(after_push_head(items, values[0]), values.drop_first());
        assert(values.drop_first().reverse() + after_push_head(items, values[0])
            =~= values.reverse() + items);
    }
}

/// `count` removals at the front hand out the first `count` elements in their
/// order, or all of them where there are fewer.
pub proof fn lemma_popped_head_all_is_prefix<T>(items: Seq<T>, count: nat)
    ensures
        popped_head_all(items, count) == items.subrange(
            0,
            if count <= items.len() {
                count as int
            } else {
                items.len() as int
            },
        ),
    decreases count,
{
    let upto = if count <= items.len() {
        count as int
    } else {
        items.len() as int
    };
    if count == 0 {
        assert(items.subrange(0, upto) =~= Seq::<T>::empty());
    } else {
        lemma_popped_head_all_is_prefix(after_pop_head(items), (count - 1) as nat);
        if items.len() == 0 {
            assert(items.subrange(0, upto) =~= Seq::<T>::empty());
            assert(popped_head_all(items, count) =~= Seq::<T>::empty());
        } else {
            let rest = items.drop_first();
            let rest_upto = upto - 1;
            assert(seq![items[0]] + rest.subrange(0, rest_upto) =~= items.subrange(0, upto));
        }
    }
}

/// `count` removals at the back hand out the last `count` elements, the last
/// one first, or all of them where there are fewer.
pub proof fn lemma_popped_tail_all_is_reversed_suffix<T>(items: Seq<T>, count: nat)
    ensures
        popped_tail_all(items, count) == items.subrange(
            if count <= items.len() {
                items.len() - count
            } else {
                0
            },
            items.len() as int,
        ).reverse(),
    decreases count,
{
    let from = if count <= items.len() {
        items.len() - count
    } else {
        0
    };
    if count == 0 {
        assert(items.subrange(from, items.len() as int).reverse() =~= Seq::<T>::empty());
    } else {
        lemma_popped_tail_all_is_reversed_suffix(after_pop_tail(items), (count - 1) as nat);
        if items.len() == 0 {
            assert(items.subrange(from, items.len() as int).reverse() =~= Seq::<T>::empty());
            assert(popped_tail_all(items, count) =~= Seq::<T>::empty());
        } else {
            let rest = items.drop_last();
            assert(seq![items.last()] + rest.subrange(from, rest.len() as int).reverse()
                =~= items.subrange(from, items.len() as int).reverse());
        }
    }
}

/// First in, first out, from back to front: when `values` are pushed to the
/// back of an empty list and as many elements are then popped from the front,
/// the pops hand out `values` in the order in which they were pushed, and the
/// list is empty again.
pub proof fn law_push_tail_pop_head_keeps_order<T>(values: Seq<T>)
    ensures
        popped_head_all(after_push_tail_all(Seq::empty(), values), values.len()) == values,
{
    lemma_push_tail_all_appends(Seq::<T>::empty(), values);
    assert(Seq::<T>::empty() + values =~= values);
    lemma_popped_head_all_is_prefix(values, values.len());
    assert(values.subrange(0, values.len() as int) =~= values);
}

/// First in, first out, from front to back: when `values` are pushed to the
/// front of an empty list and as many elements are then popped from the back,
/// the pops hand out `values` in the order in which they were pushed.
pub proof fn law_push_head_pop_tail_keeps_order<T>(values: Seq<T>)
    ensures
        popped_tail_all(after_push_head_all(Seq::empty(), values), values.len()) == values,
{
    lemma_push_head_all_prepends(Seq::<T>::empty(), values);
    let reversed = values.reverse();
    assert(reversed + Seq::<T>::empty() =~= reversed);
    lemma_popped_tail_all_is_reversed_suffix(reversed, values.len());
    assert(reversed.subrange(0, reversed.len() as int) =~= reversed);
    assert(reversed.reverse() =~= values);
}

/// Last in, first out at one end: an element pushed to either end is the one
/// that the next pop at that end hands out, and the list is then as it was
/// before the push.
pub proof fn law_push_then_pop_same_end<T>(items: Seq<T>, value: T)
    ensures
        popped_head(after_push_head(items, value)) == Some(value),
        after_pop_head(after_push_head(items, value)) == items,
        popped_tail(after_push_tail(items, value)) == Some(value),
        after_pop_tail(after_push_tail(items, value)) == items,
{
    assert(after_pop_head(after_push_head(items, value)) =~= items);
    assert(after_pop_tail(after_push_tail(items, value)) =~= items);
}

/// Each operation changes the length by what it adds or hands out: a push adds
/// one, a pop that hands out an element takes one, a pop on an empty list
/// changes nothing.
pub proof fn law_length_step<T>(items: Seq<T>, op: Operation<T>)
    ensures
        after(items, op).len() == items.len() + (match op {
            Operation::PushHead(_) => 1int,
            Operation::PushTail(_) => 1int,
            _ => 0int,
        }) - (if handed_out(items, op) is Some {
            1int
        } else {
            0int
        }),
        handed_out(items, op) is Some <==> (op is PopHead || op is PopTail) && items.len() > 0,
{
}

/// The length after any sequence of pushes and pops is the length before it,
/// plus the number of pushes, minus the number of pops that handed out an
/// element.
pub proof fn law_length_counts_pushes_and_pops<T>(items: Seq<T>, ops: Seq<Operation<T>>)
    ensures
        after_all(items, ops).len() == items.len() + pushes(ops) - successful_pops(items, ops),
    decreases ops.len(),
{
    if ops.len() > 0 {
        law_length_step(items, ops[0]);
        law_length_counts_pushes_and_pops(after(items, ops[0]), ops.drop_first());
    }
}

/// Of two pops on a list of one element, at whichever ends, the first hands
/// out the element and the second finds the list empty. Operations on a shared
/// deque take effect one at a time, so this holds of two racing pops in
/// whichever order they are granted the lock.
pub proof fn law_single_element_is_popped_once<T>(
    value: T,
    first_at_head: bool,
    second_at_head: bool,
)
    ensures
        handed_out(seq![value], pop_at(first_at_head)) == Some(value),
        handed_out(after(seq![value], pop_at(first_at_head)), pop_at::<T>(second_at_head))
            is None,
        after(after(seq![value], pop_at(first_at_head)), pop_at(second_at_head)) == Seq::<
            T,
        >::empty(),
{
    assert(after(seq![value], pop_at(first_at_head)) =~= Seq::<T>::empty());
}

/// Two pushes on an empty list, each at whichever end, are both kept: the
/// list then holds the two values and nothing else, the second before the
/// first where it was pushed at the head and after it otherwise.
pub proof fn law_two_pushes_are_both_kept<T>(
    one: T,
    one_at_head: bool,
    two: T,
    two_at_head: bool,
)
    ensures
        ({
            let items = after(
                after(Seq::<T>::empty(), push_at(one_at_head, one)),
                push_at(two_at_head, two),
            );
            &&& items.len() == 2
            &&& items.contains(one)
            &&& items.contains(two)
            &&& items == (if two_at_head {
                seq![two, one]
            } else {
                seq![one, two]
            })
        }),
{
    let items = after(
        after(Seq::<T>::empty(), push_at(one_at_head, one)),
        push_at(two_at_head, two),
    );
    if two_at_head {
        assert(items =~= seq![two, one]);
        assert(items[0] == two && items[1] == one);
    } else {
        assert(items =~= seq![one, two]);
        assert(items[0] == one && items[1] == two);
    }
}

/// A push and a pop on an empty list, in either order, leave one of two
/// states: where the pop comes first it hands out nothing and the value
/// stays; where the push comes first the pop hands out the value and the list
/// is empty again.
pub proof fn law_push_and_pop_in_either_order<T>(value: T, push_at_head: bool, pop_at_head: bool)
    ensures
        handed_out(Seq::<T>::empty(), pop_at::<T>(pop_at_head)) is None,
        after(after(Seq::<T>::empty(), pop_at(pop_at_head)), push_at(push_at_head, value))
            == seq![value],
        handed_out(after(Seq::<T>::empty(), push_at(push_at_head, value)), pop_at(pop_at_head))
            == Some(value),
        after(after(Seq::<T>::empty(), push_at(push_at_head, value)), pop_at(pop_at_head))
            == Seq::<T>::empty(),
{
    let pushed = after(Seq::<T>::empty(), push_at(push_at_head, value));
    assert(pushed =~= seq![value]);
    assert(after(after(Seq::<T>::empty(), pop_at(pop_at_head)), push_at(push_at_head, value))
        =~= seq![value]);
    assert(after(pushed, pop_at(pop_at_head)) =~= Seq::<T>::empty());
}

} // verus!
