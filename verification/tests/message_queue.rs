use rust_atomics::message_queue::MessageQueue;

#[test]
fn queue_is_fifo() {
    let mut q: MessageQueue<usize> = MessageQueue::new();
    assert!(q.is_empty());
    assert_eq!(q.pop(), None);
    for message in 1..=3 {
        q.push(message);
    }
    q.push(0);
    assert!(!q.is_empty());
    assert_eq!(q.pop(), Some(1));
    assert_eq!(q.pop(), Some(2));
    q.push(7);
    assert_eq!(q.pop(), Some(3));
    assert_eq!(q.pop(), Some(0));
    assert_eq!(q.pop(), Some(7));
    assert_eq!(q.pop(), None);
    assert!(q.is_empty());
}
