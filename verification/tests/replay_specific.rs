use rtrb::RingBuffer;

#[test]
fn resend_window_blocking() {
    let (mut rb, mut p, mut c) = RingBuffer::new(5, 2);

    // Should be able to write 3 messages (5-2)
    p.push(&mut rb, 1).unwrap();
    p.push(&mut rb, 2).unwrap();
    p.push(&mut rb, 3).unwrap();

    // Next push should fail (only 2 protected slots left)
    assert!(p.push(&mut rb, 4).is_err());

    // After reading one item, should have space for one more
    assert_eq!(c.pop(&mut rb).unwrap(), 1);
    assert!(p.push(&mut rb, 4).is_ok());
}

#[test]
fn history_basic_access() {
    let (mut rb, mut p, mut c) = RingBuffer::new(5, 0);

    p.push(&mut rb, 10).unwrap();
    p.push(&mut rb, 20).unwrap();
    p.push(&mut rb, 30).unwrap();

    let history = c.history(&rb);

    // Check history contains all items
    assert_eq!(history.len(), 3);
    assert_eq!(history.get(history.start_index()), Some(&10));
    assert_eq!(history.get(history.start_index() + 1), Some(&20));
    assert_eq!(history.get(history.start_index() + 2), Some(&30));
}

#[test]
fn history_after_pop() {
    let (mut rb, mut p, mut c) = RingBuffer::new(5, 0);

    p.push(&mut rb, 10).unwrap();
    p.push(&mut rb, 20).unwrap();
    p.push(&mut rb, 30).unwrap();

    // Pop first item
    assert_eq!(c.pop(&mut rb).unwrap(), 10);

    let history = c.history(&rb);

    // Check history excludes popped item
    assert_eq!(history.len(), 2);
    assert_eq!(history.get(history.start_index()), Some(&20));
    assert_eq!(history.get(history.start_index() + 1), Some(&30));
}

#[test]
fn history_after_producer_advance() {
    let (mut rb, mut p, mut c) = RingBuffer::new(3, 0);

    p.push(&mut rb, 1).unwrap();
    let history1 = c.history(&rb);
    assert_eq!(history1.len(), 1);

    p.push(&mut rb, 2).unwrap();
    let history2 = c.history(&rb);
    assert_eq!(history2.len(), 2);

    p.push(&mut rb, 3).unwrap();
    let history3 = c.history(&rb);
    assert_eq!(history3.len(), 3);
}

#[test]
fn history_wraparound() {
    let (mut rb, mut p, mut c) = RingBuffer::new(3, 0);

    // Fill buffer completely
    p.push(&mut rb, 10).unwrap();
    p.push(&mut rb, 20).unwrap();
    p.push(&mut rb, 30).unwrap();

    // Create space at beginning
    assert_eq!(c.pop(&mut rb).unwrap(), 10);
    assert_eq!(c.pop(&mut rb).unwrap(), 20);

    // Cause wrap-around
    p.push(&mut rb, 40).unwrap();
    p.push(&mut rb, 50).unwrap();

    let history = c.history(&rb);

    // Check history contains all items
    assert_eq!(history.len(), 3);
    assert_eq!(history.get(history.start_index()), Some(&30));
    assert_eq!(history.get(history.start_index() + 1), Some(&40));
    assert_eq!(history.get(history.start_index() + 2), Some(&50));
}

#[test]
fn history_iteration() {
    let (mut rb, mut p, mut c) = RingBuffer::new(5, 0);

    p.push(&mut rb, 10).unwrap();
    p.push(&mut rb, 20).unwrap();
    p.push(&mut rb, 30).unwrap();

    let history = c.history(&rb);
    let mut iter = history.iter();

    assert_eq!(iter.next(), Some(&10));
    assert_eq!(iter.next(), Some(&20));
    assert_eq!(iter.next(), Some(&30));
    assert_eq!(iter.next(), None);

    // Check size_hint is accurate
    assert_eq!(iter.size_hint(), (0, Some(0)));
}

#[test]
fn history_with_resend_window() {
    let (mut rb, mut p, mut c) = RingBuffer::new(5, 2);

    // Fill buffer to resend limit (5-2=3 messages)
    p.push(&mut rb, 10).unwrap();
    p.push(&mut rb, 20).unwrap();
    p.push(&mut rb, 30).unwrap();

    // Next push should fail due to resend window
    assert!(p.push(&mut rb, 40).is_err());

    let history = c.history(&rb);

    // History should contain all written messages
    assert_eq!(history.len(), 3);
    assert_eq!(history.get(history.start_index()), Some(&10));
    assert_eq!(history.get(history.start_index() + 1), Some(&20));
    assert_eq!(history.get(history.start_index() + 2), Some(&30));

    assert_eq!(c.pop(&mut rb).unwrap(), 10);
    p.push(&mut rb, 40).unwrap();

    let history = c.history(&rb);

    // History should reflect new state
    assert_eq!(history.len(), 3);
    assert_eq!(history.get(history.start_index()), Some(&20));
    assert_eq!(history.get(history.start_index() + 1), Some(&30));
    assert_eq!(history.get(history.start_index() + 2), Some(&40));
}

#[test]
fn history_indexing() {
    let (mut rb, mut p, mut c) = RingBuffer::new(3, 0);

    let initial_head = c.head();

    p.push(&mut rb, 10).unwrap();
    p.push(&mut rb, 20).unwrap();
    assert_eq!(c.pop(&mut rb).unwrap(), 10);
    p.push(&mut rb, 30).unwrap();

    let history = c.history(&rb);

    assert_eq!(history.start_index(), initial_head + 1);
    assert_eq!(history.end_index(), initial_head + 3);

    // Check items at specific indices
    assert_eq!(history.get(initial_head), None);
    assert_eq!(history.get(initial_head + 1), Some(&20));
    assert_eq!(history.get(initial_head + 2), Some(&30));
}

#[test]
fn history_empty_buffer() {
    let (rb, _, mut c) = RingBuffer::<i32>::new(3, 0);
    let history = c.history(&rb);

    // Should be empty but valid
    assert_eq!(history.len(), 0);
    assert!(history.is_empty());
    assert_eq!(history.start_index(), c.head());
    assert_eq!(history.end_index(), c.head());
    assert_eq!(history.iter().next(), None);
}

#[test]
fn history_full_buffer() {
    let (mut rb, mut p, mut c) = RingBuffer::new(3, 0);

    p.push(&mut rb, 10).unwrap();
    p.push(&mut rb, 20).unwrap();
    p.push(&mut rb, 30).unwrap();

    let history = c.history(&rb);

    // Should contain all items
    assert_eq!(history.len(), 3);
    let mut items: Vec<i32> = Vec::new();
    let mut iter = history.iter();
    while let Some(item) = iter.next() {
        items.push(*item);
    }
    assert_eq!(items, vec![10, 20, 30]);
}

#[test]
fn history_position_access() {
    let (mut rb, mut p, mut c) = RingBuffer::new(3, 0);

    let start_pos = c.head();

    p.push(&mut rb, 100).unwrap();
    p.push(&mut rb, 200).unwrap();

    // Access messages by their specific indices
    let history = c.history(&rb);
    assert_eq!(history.get(start_pos), Some(&100));
    assert_eq!(history.get(start_pos + 1), Some(&200));

    c.pop(&mut rb).unwrap();
    let history = c.history(&rb);
    assert_eq!(history.get(start_pos), None);
    assert_eq!(history.get(start_pos + 1), Some(&200));
}
