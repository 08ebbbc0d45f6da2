use music_player::queue::PlaybackQueue;

#[test]
fn new_queue_is_empty() {
    let queue = PlaybackQueue::new();
    assert!(queue.is_empty());
    assert_eq!(queue.len(), 0);
    assert_eq!(queue.get(0), None);
    assert_eq!(queue.positions(), Vec::<usize>::new());
}

#[test]
fn enqueue_keeps_positions_of_the_library_in_order() {
    let mut queue = PlaybackQueue::new();
    queue.enqueue(2, 3);
    queue.enqueue(0, 3);
    queue.enqueue(2, 3);
    assert_eq!(queue.positions(), vec![2, 0, 2]);
    assert_eq!(queue.len(), 3);
    assert!(!queue.is_empty());
    assert_eq!(queue.get(1), Some(0));
    assert_eq!(queue.get(3), None);
}

#[test]
fn enqueue_drops_positions_outside_the_library() {
    let mut queue = PlaybackQueue::new();
    queue.enqueue(1, 3);
    queue.enqueue(3, 3);
    queue.enqueue(4, 3);
    queue.enqueue(0, 0);
    queue.enqueue(usize::MAX, usize::MAX);
    assert_eq!(queue.positions(), vec![1]);
}

#[test]
fn dequeue_takes_the_front_first() {
    let mut queue = PlaybackQueue::new();
    for p in [4, 1, 3] {
        queue.enqueue(p, 5);
    }
    assert_eq!(queue.dequeue_or_default(9), 4);
    assert_eq!(queue.positions(), vec![1, 3]);
    assert_eq!(queue.dequeue_or_default(9), 1);
    assert_eq!(queue.dequeue_or_default(9), 3);
    assert!(queue.is_empty());
}

#[test]
fn dequeue_of_the_empty_queue_gives_the_fallback() {
    let mut queue = PlaybackQueue::new();
    assert_eq!(queue.dequeue_or_default(7), 7);
    assert_eq!(queue.dequeue_or_default(0), 0);
    assert!(queue.is_empty());
}

#[test]
fn retain_within_drops_what_is_out_of_range() {
    let mut queue = PlaybackQueue::new();
    for p in [5, 0, 9, 3, 5, 2] {
        queue.enqueue(p, 10);
    }
    queue.retain_within(5);
    assert_eq!(queue.positions(), vec![0, 3, 2]);
    queue.retain_within(5);
    assert_eq!(queue.positions(), vec![0, 3, 2]);
    queue.retain_within(0);
    assert!(queue.is_empty());
}
