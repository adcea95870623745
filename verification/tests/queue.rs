use rustygoblin::queue::{BoundedQueue, QUEUE_CAPACITY};

#[test]
fn the_pipeline_queue_holds_fifty_records() {
    assert_eq!(QUEUE_CAPACITY, 50);
}

#[test]
fn a_new_queue_is_empty() {
    let mut queue: BoundedQueue<u32> = BoundedQueue::new(QUEUE_CAPACITY);
    assert_eq!(queue.len(), 0);
    assert_eq!(queue.capacity(), 50);
    assert_eq!(queue.dropped(), 0);
    assert!(queue.is_empty());
    assert!(!queue.is_full());
    assert_eq!(queue.try_recv(), None);
}

#[test]
fn records_come_out_in_the_order_they_went_in() {
    let mut queue: BoundedQueue<u32> = BoundedQueue::new(QUEUE_CAPACITY);
    for item in 0..10 {
        assert_eq!(queue.try_send(item), Ok(()));
    }
    assert_eq!(queue.len(), 10);
    for item in 0..10 {
        assert_eq!(queue.try_recv(), Some(item));
    }
    assert_eq!(queue.try_recv(), None);
    assert_eq!(queue.dropped(), 0);
}

#[test]
fn a_full_queue_turns_records_away_and_stays_as_it_is() {
    let mut queue: BoundedQueue<u32> = BoundedQueue::new(QUEUE_CAPACITY);
    for item in 0..50 {
        assert_eq!(queue.try_send(item), Ok(()));
    }
    assert!(queue.is_full());
    assert_eq!(queue.len(), 50);
    for item in 50..60 {
        assert_eq!(queue.try_send(item), Err(item));
        assert_eq!(queue.len(), 50);
    }
    assert_eq!(queue.dropped(), 10);
    for item in 0..50 {
        assert_eq!(queue.try_recv(), Some(item));
    }
    assert_eq!(queue.try_recv(), None);
}

#[test]
fn room_comes_back_when_a_record_is_taken() {
    let mut queue: BoundedQueue<u32> = BoundedQueue::new(2);
    assert_eq!(queue.try_send(1), Ok(()));
    assert_eq!(queue.try_send(2), Ok(()));
    assert_eq!(queue.try_send(3), Err(3));
    assert_eq!(queue.try_recv(), Some(1));
    assert_eq!(queue.try_send(4), Ok(()));
    assert_eq!(queue.try_recv(), Some(2));
    assert_eq!(queue.try_recv(), Some(4));
    assert_eq!(queue.dropped(), 1);
}

#[test]
fn a_queue_without_room_takes_nothing() {
    let mut queue: BoundedQueue<u32> = BoundedQueue::new(0);
    assert!(queue.is_full());
    assert_eq!(queue.try_send(1), Err(1));
    assert_eq!(queue.len(), 0);
    assert_eq!(queue.dropped(), 1);
}
