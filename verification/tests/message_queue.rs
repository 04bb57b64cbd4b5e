use canal::message_queue::MessageQueue;

#[test]
fn queue_is_created_with_maximum_capacity() {
    let queue: MessageQueue<()> = MessageQueue::with_capacity(10);
    assert_eq!(queue.capacity(), 10);
    assert_eq!(queue.size(), 0);
}

#[test]
fn message_can_be_pushed_to_queue() {
    let mut queue = MessageQueue::with_capacity(10);
    let message = "message 1".to_string();

    queue.push(message);

    assert_eq!(queue.size(), 1);
}

#[test]
fn message_can_be_popped_to_queue() {
    let mut queue = MessageQueue::with_capacity(10);
    let message = "message 1".to_string();
    queue.push(message);

    assert_eq!(queue.pop(), Some("message 1".to_string()));
    assert_eq!(queue.pop(), None);
    assert_eq!(queue.size(), 0);
}

#[test]
fn queue_pops_in_insertion_order() {
    let mut queue = MessageQueue::with_capacity(3);
    queue.push(1u32);
    queue.push(2u32);
    queue.push(3u32);

    assert_eq!(queue.pop(), Some(1));
    assert_eq!(queue.pop(), Some(2));
    assert_eq!(queue.pop(), Some(3));
    assert_eq!(queue.pop(), None);
}
