use rtrb::link::abandoned_with;
use rtrb::{PeekError, PopError, PushError, RingBuffer};

#[test]
fn round_trip_is_first_in_first_out() {
    let (mut rb, mut p, mut c) = RingBuffer::new(8, 0);
    let values = ["a", "b", "c", "d", "e", "f", "g", "h"];

    for value in values {
        assert_eq!(p.push(&mut rb, value.to_string()), Ok(()));
    }
    for value in values {
        assert_eq!(c.pop(&mut rb), Ok(value.to_string()));
    }
    assert_eq!(c.pop(&mut rb), Err(PopError::Empty));
}

#[test]
fn slots_of_both_sides_add_up_to_the_capacity() {
    let (mut rb, mut p, mut c) = RingBuffer::new(6, 2);

    assert_eq!(p.slots(&rb), 6);
    assert_eq!(c.slots(&rb), 0);
    for value in 0..4 {
        assert_eq!(p.push(&mut rb, value), Ok(()));
        assert_eq!(p.slots(&rb) + c.slots(&rb), 6);
    }
    assert_eq!(p.slots(&rb), 2);
    assert_eq!(c.slots(&rb), 4);
    for _ in 0..4 {
        assert!(c.pop(&mut rb).is_ok());
        assert_eq!(p.slots(&rb) + c.slots(&rb), 6);
    }
    assert_eq!(p.slots(&rb), 6);
    assert_eq!(c.slots(&rb), 0);
}

#[test]
fn pop_from_empty_fails_every_time_without_effect() {
    let (mut rb, mut p, mut c) = RingBuffer::new(2, 0);

    for _ in 0..3 {
        assert_eq!(c.pop(&mut rb), Err(PopError::Empty));
        assert_eq!(c.head(), 0);
        assert_eq!(c.slots(&rb), 0);
        assert_eq!(p.slots(&rb), 2);
    }
    assert_eq!(p.push(&mut rb, 5), Ok(()));
    assert_eq!(c.pop(&mut rb), Ok(5));
    for _ in 0..3 {
        assert_eq!(c.pop(&mut rb), Err(PopError::Empty));
        assert_eq!(c.head(), 1);
    }
}

#[test]
fn push_onto_full_hands_the_same_value_back_every_time() {
    let (mut rb, mut p, mut c) = RingBuffer::new(2, 0);

    assert_eq!(p.push(&mut rb, 1), Ok(()));
    assert_eq!(p.push(&mut rb, 2), Ok(()));
    let mut rejected = 3;
    for _ in 0..4 {
        match p.push(&mut rb, rejected) {
            Err(PushError::Full(value)) => rejected = value,
            Ok(()) => panic!("a full buffer accepted an item"),
        }
        assert_eq!(rejected, 3);
        assert_eq!(c.slots(&rb), 2);
    }
    assert_eq!(c.pop(&mut rb), Ok(1));
    assert_eq!(c.pop(&mut rb), Ok(2));
    assert_eq!(c.pop(&mut rb), Err(PopError::Empty));
}

#[test]
fn rejected_value_comes_back_out_of_the_error() {
    let (mut rb, mut p, _c) = RingBuffer::new(1, 0);

    assert_eq!(p.push(&mut rb, vec![1, 2]), Ok(()));
    let PushError::Full(rejected) = p.push(&mut rb, vec![3, 4]).unwrap_err();
    assert_eq!(rejected, vec![3, 4]);
}

#[test]
fn peek_shows_the_oldest_item_and_leaves_it() {
    let (mut rb, mut p, mut c) = RingBuffer::new(2, 0);

    assert_eq!(c.peek(&rb), Err(PeekError::Empty));
    assert_eq!(p.push(&mut rb, 10), Ok(()));
    assert_eq!(p.push(&mut rb, 20), Ok(()));
    assert_eq!(c.peek(&rb), Ok(&10));
    assert_eq!(c.peek(&rb), Ok(&10));
    assert_eq!(c.slots(&rb), 2);
    assert_eq!(c.pop(&mut rb), Ok(10));
    assert_eq!(c.peek(&rb), Ok(&20));
    assert_eq!(c.pop(&mut rb), Ok(20));
    assert_eq!(c.peek(&rb), Err(PeekError::Empty));
}

#[test]
fn is_full_and_is_empty_follow_the_fill_level() {
    let (mut rb, mut p, mut c) = RingBuffer::new(3, 1);

    assert!(!p.is_full(&rb));
    assert!(c.is_empty(&rb));
    assert_eq!(p.push(&mut rb, 1), Ok(()));
    assert!(!p.is_full(&rb));
    assert!(!c.is_empty(&rb));
    assert_eq!(p.push(&mut rb, 2), Ok(()));
    assert!(p.is_full(&rb));
    assert_eq!(c.pop(&mut rb), Ok(1));
    assert!(!p.is_full(&rb));
    assert_eq!(c.pop(&mut rb), Ok(2));
    assert!(c.is_empty(&rb));
}

#[test]
fn next_tail_and_next_head_give_the_positions() {
    let (mut rb, mut p, mut c) = RingBuffer::new(2, 0);

    assert_eq!(p.next_tail(&rb), Some(0));
    assert_eq!(c.next_head(&rb), None);
    assert_eq!(p.push(&mut rb, 'a'), Ok(()));
    assert_eq!(p.next_tail(&rb), Some(1));
    assert_eq!(c.next_head(&rb), Some(0));
    assert_eq!(p.push(&mut rb, 'b'), Ok(()));
    assert_eq!(p.next_tail(&rb), None);
    assert_eq!(c.pop(&mut rb), Ok('a'));
    assert_eq!(p.next_tail(&rb), Some(2));
    assert_eq!(c.next_head(&rb), Some(1));
    assert_eq!(p.push(&mut rb, 'c'), Ok(()));
    assert_eq!(c.pop(&mut rb), Ok('b'));
    assert_eq!(c.pop(&mut rb), Ok('c'));
    assert_eq!(c.next_head(&rb), None);
    assert_eq!(c.head(), 3);
    assert_eq!(p.next_tail(&rb), Some(3));
    assert_eq!(p.push(&mut rb, 'd'), Ok(()));
    assert_eq!(p.next_tail(&rb), Some(0));
}

#[test]
fn head_follows_the_pops_through_the_wrap() {
    let (mut rb, mut p, mut c) = RingBuffer::new(2, 0);

    let mut expected = [1, 2, 3, 0, 1].into_iter();
    for value in 0..5 {
        assert_eq!(p.push(&mut rb, value), Ok(()));
        assert_eq!(c.pop(&mut rb), Ok(value));
        assert_eq!(Some(c.head()), expected.next());
    }
}

#[test]
fn producer_is_abandoned_once_the_consumer_is_dropped() {
    let (mut rb, mut p, c) = RingBuffer::new(7, 0);

    assert!(!p.is_abandoned());
    assert!(!c.is_abandoned());
    assert_eq!(p.push(&mut rb, 10), Ok(()));
    drop(c);
    assert!(p.is_abandoned());
    assert_eq!(p.push(&mut rb, 11), Ok(()));
    assert!(p.is_abandoned());
}

#[test]
fn consumer_is_abandoned_once_the_producer_is_dropped() {
    let (mut rb, mut p, mut c) = RingBuffer::new(7, 0);

    assert!(!c.is_abandoned());
    assert_eq!(p.push(&mut rb, 10), Ok(()));
    drop(p);
    assert!(c.is_abandoned());
    assert_eq!(c.pop(&mut rb), Ok(10));
}

#[test]
fn handles_of_different_buffers_do_not_count_each_other() {
    let (_left, left_producer, left_consumer) = RingBuffer::<i32>::new(1, 0);
    let (_right, right_producer, right_consumer) = RingBuffer::<i32>::new(1, 0);

    drop(left_consumer);
    drop(right_producer);
    assert!(left_producer.is_abandoned());
    assert!(right_consumer.is_abandoned());
}

#[test]
fn abandoned_with_fewer_than_two_owners() {
    assert!(abandoned_with(0));
    assert!(abandoned_with(1));
    assert!(!abandoned_with(2));
    assert!(!abandoned_with(3));
}

#[test]
fn errors_describe_themselves() {
    assert_eq!(PopError::Empty.to_string(), "empty ring buffer");
    assert_eq!(PeekError::Empty.to_string(), "empty ring buffer");
    assert_eq!(PushError::Full(1).to_string(), "full ring buffer");
}

#[test]
fn handles_can_move_to_other_threads_one_after_the_other() {
    fn assert_send<S: Send>(_: &S) {}
    let (rb, p, c) = RingBuffer::<u64>::new(2, 0);

    assert_send(&rb);
    assert_send(&p);
    assert_send(&c);
}

#[test]
fn push_error_clones_the_rejected_item() {
    let error = PushError::Full(String::from("late"));
    let copy = error.clone();

    assert_eq!(copy, PushError::Full(String::from("late")));
    assert_eq!(error, copy);

    let plain = PushError::Full(7u8);
    let taken = plain;
    assert_eq!(plain, taken);
}
