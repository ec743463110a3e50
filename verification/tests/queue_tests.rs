use cdc_pipeline::queue::{Batcher, Enqueue, WorkQueue};

#[test]
fn fifo_order_is_kept() {
    let mut q: WorkQueue<u64> = WorkQueue::new(4);
    assert!(matches!(q.push(1), Enqueue::Accepted));
    assert!(matches!(q.push(2), Enqueue::Accepted));
    assert!(matches!(q.push(3), Enqueue::Accepted));
    assert_eq!(q.pop(), Some(1));
    assert_eq!(q.pop(), Some(2));
    assert_eq!(q.pop(), Some(3));
    assert_eq!(q.pop(), None);
}

#[test]
fn full_queue_refuses_and_loses_nothing() {
    let mut q: WorkQueue<u64> = WorkQueue::new(2);
    assert!(matches!(q.push(10), Enqueue::Accepted));
    assert!(matches!(q.push(20), Enqueue::Accepted));
    assert!(q.is_full());
    // the producer's item comes back untouched; it must suspend
    match q.push(30) {
        Enqueue::Full(x) => assert_eq!(x, 30),
        Enqueue::Accepted => panic!("push into a full queue must be refused"),
    }
    assert_eq!(q.len(), 2);
    // the consumer dequeues; the producer resumes and the retried item fits
    assert_eq!(q.pop(), Some(10));
    assert!(matches!(q.push(30), Enqueue::Accepted));
    assert_eq!(q.pop(), Some(20));
    assert_eq!(q.pop(), Some(30));
}

#[test]
fn batcher_emits_exactly_at_threshold() {
    let mut b: Batcher<u32> = Batcher::new(3);
    assert_eq!(b.add(1), None);
    assert_eq!(b.add(2), None);
    assert_eq!(b.add(3), Some(vec![1, 2, 3]));
    assert_eq!(b.add(4), None);
    assert_eq!(b.take(), vec![4]);
    assert_eq!(b.take(), Vec::<u32>::new());
}
