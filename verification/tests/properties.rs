use ringstack::RingStack;

#[test]
fn len_counts_pushes_and_saturates() {
    let mut s = RingStack::<u32, 3>::new();
    assert_eq!(s.len(), 0);
    s.push(10);
    assert_eq!(s.len(), 1);
    s.push(11);
    assert_eq!(s.len(), 2);
    s.push(12);
    assert_eq!(s.len(), 3);
    s.push(13);
    assert_eq!(s.len(), 3);
    s.push(14);
    assert_eq!(s.len(), 3);
}

#[test]
fn peek_follows_the_newest_value() {
    let mut s = RingStack::<u32, 2>::new();
    assert_eq!(s.peek(), None);
    s.push(1);
    assert_eq!(s.peek(), Some(&1));
    s.push(2);
    assert_eq!(s.peek(), Some(&2));
    s.push(3);
    assert_eq!(s.peek(), Some(&3));
    assert_eq!(s.pop(), Some(3));
    assert_eq!(s.peek(), Some(&2));
    assert_eq!(s.pop(), Some(2));
    assert_eq!(s.peek(), None);
}

#[test]
fn push_then_pop_is_a_no_op_when_not_full() {
    let mut s = RingStack::<u32, 3>::new();
    s.push(5);
    s.push(6);
    let len_before = s.len();
    let peeked_before = *s.peek().unwrap();
    s.push(7);
    assert_eq!(s.pop(), Some(7));
    assert_eq!(s.len(), len_before);
    assert_eq!(s.peek(), Some(&peeked_before));
    assert_eq!(s.get(1), Some(&5));
}

#[test]
fn push_then_pop_on_a_full_stack_discards_the_oldest() {
    let mut s = RingStack::<u32, 3>::new();
    s.push(1);
    s.push(2);
    s.push(3);
    s.push(4);
    assert_eq!(s.pop(), Some(4));
    // The top is restored, but 1 is gone for good.
    assert_eq!(s.peek(), Some(&3));
    assert_eq!(s.len(), 2);
    let v: Vec<&u32> = s.iter();
    assert_eq!(v, vec![&3, &2]);
}

#[test]
fn filling_to_capacity_yields_newest_first() {
    let mut s = RingStack::<u32, 4>::new();
    s.push(1);
    s.push(2);
    s.push(3);
    s.push(4);
    let v: Vec<&u32> = s.iter();
    assert_eq!(v, vec![&4, &3, &2, &1]);
}

#[test]
fn one_push_beyond_capacity_drops_the_first() {
    let mut s = RingStack::<u32, 4>::new();
    s.push(1);
    s.push(2);
    s.push(3);
    s.push(4);
    s.push(5);
    let v: Vec<&u32> = s.iter();
    assert_eq!(v, vec![&5, &4, &3, &2]);
}

#[test]
fn get_zero_equals_peek_and_beyond_len_is_absent() {
    let mut s = RingStack::<u32, 3>::new();
    assert_eq!(s.get(0), s.peek());
    s.push(8);
    assert_eq!(s.get(0), s.peek());
    s.push(9);
    assert_eq!(s.get(0), s.peek());
    assert_eq!(s.get(2), None);
    assert_eq!(s.get(3), None);
    assert_eq!(s.get(100), None);
    s.pop();
    assert_eq!(s.get(0), s.peek());
    assert_eq!(s.get(1), None);
}

#[test]
fn index_matches_iteration_order() {
    let mut s = RingStack::<u32, 3>::new();
    s.push(7);
    s.push(8);
    s.push(9);
    s.push(10);
    let v: Vec<&u32> = s.iter();
    for k in 0..s.len() {
        assert_eq!(s.index(k), v[k]);
    }
}

#[test]
fn scenario_capacity_three() {
    let mut s = RingStack::<i32, 3>::new();
    s.push(1);
    s.push(2);
    assert_eq!(s.peek(), Some(&2));
    assert_eq!(s.pop(), Some(2));
    assert_eq!(*s.index(0), 1);
    s.push(3);
    s.push(4);
    let v: Vec<&i32> = s.iter();
    assert_eq!(v, vec![&4, &3, &1]);
    s.push(5);
    let v: Vec<&i32> = s.iter();
    assert_eq!(v, vec![&5, &4, &3]);
    assert_eq!(s.pop(), Some(5));
    assert_eq!(s.pop(), Some(4));
    assert_eq!(s.pop(), Some(3));
    assert_eq!(s.pop(), None);
}

#[test]
fn writes_in_place_are_seen_by_every_reader() {
    let mut s = RingStack::<u32, 3>::new();
    s.push(1);
    s.push(2);
    s.push(3);
    *s.index_mut(1) = 20;
    assert_eq!(s.len(), 3);
    assert_eq!(s.peek(), Some(&3));
    assert_eq!(s.get(1), Some(&20));
    let v: Vec<&u32> = s.iter();
    assert_eq!(v, vec![&3, &20, &1]);
    *s.index_mut(0) = 30;
    assert_eq!(s.peek(), Some(&30));
    assert_eq!(s.len(), 3);
}

#[test]
fn a_stack_of_capacity_one_holds_only_the_newest() {
    let mut s = RingStack::<u32, 1>::new();
    assert_eq!(s.peek(), None);
    s.push(1);
    assert_eq!(s.peek(), Some(&1));
    s.push(2);
    assert_eq!(s.len(), 1);
    assert_eq!(s.peek(), Some(&2));
    assert_eq!(s.pop(), Some(2));
    assert_eq!(s.pop(), None);
    s.push(3);
    assert_eq!(s.peek(), Some(&3));
}

#[test]
fn popping_an_empty_stack_keeps_it_consistent() {
    let mut s = RingStack::<u32, 3>::new();
    assert_eq!(s.pop(), None);
    assert_eq!(s.pop(), None);
    s.push(4);
    assert_eq!(s.peek(), Some(&4));
    assert_eq!(s.len(), 1);
    assert_eq!(s.pop(), Some(4));
    assert_eq!(s.pop(), None);
}
