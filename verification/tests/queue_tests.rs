use el320x240_36hb_sender::queue::FrameQueue;

#[test]
fn drop_newest_when_full() {
    // Capacity 1: F1 is accepted; F2 and F3 are dropped while F1 waits;
    // the receive then yields F1.
    let mut q = FrameQueue::new(1);
    let f1 = vec![1u8, 1, 1];
    let f2 = vec![2u8, 2, 2];
    let f3 = vec![3u8, 3, 3];
    assert!(q.try_send(f1.clone()));
    assert!(!q.try_send(f2));
    assert!(!q.try_send(f3));
    assert_eq!(q.len(), 1);
    assert_eq!(q.receive(), Some(f1));
    assert_eq!(q.receive(), None);
}

#[test]
fn fifo_order_for_accepted_frames() {
    let mut q = FrameQueue::new(3);
    assert!(q.try_send(vec![1u8]));
    assert!(q.try_send(vec![2u8]));
    assert!(q.try_send(vec![3u8]));
    assert!(!q.try_send(vec![4u8]));
    assert_eq!(q.receive(), Some(vec![1u8]));
    assert_eq!(q.receive(), Some(vec![2u8]));
    // After draining, a new frame is accepted again.
    assert!(q.try_send(vec![5u8]));
    assert_eq!(q.receive(), Some(vec![3u8]));
    assert_eq!(q.receive(), Some(vec![5u8]));
    assert_eq!(q.receive(), None);
}
