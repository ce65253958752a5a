use capture_sidecar::queue::{FrameQueue, FRAME_QUEUE_CAPACITY};

#[test]
fn overflow_drops_oldest_and_reports_once() {
    let mut queue = FrameQueue::new(FRAME_QUEUE_CAPACITY);
    for i in 0..50 {
        queue.push_line(format!("line {i}"));
    }
    assert_eq!(queue.len(), 50);
    queue.push_line("line 50".to_string());
    assert_eq!(queue.len(), 50);
    assert_eq!(queue.pop_line().as_deref(), Some("line 1"));
    assert_eq!(queue.take_dropped_frame_count(), Some(1));
    assert_eq!(queue.take_dropped_frame_count(), None);
    queue.push_line("line 51".to_string());
    assert_eq!(queue.take_dropped_frame_count(), None);
}

#[test]
fn length_never_exceeds_capacity() {
    let mut queue = FrameQueue::new(3);
    for i in 0..10 {
        queue.push_line(i.to_string());
        assert!(queue.len() <= 3);
    }
    assert_eq!(queue.take_dropped_count(), 7);
    assert_eq!(queue.take_dropped_count(), 0);
    let drained: Vec<String> = std::iter::from_fn(|| queue.pop_line()).collect();
    assert_eq!(drained, vec!["7", "8", "9"]);
}

#[test]
fn closed_queue_ignores_pushes_and_drains() {
    let mut queue = FrameQueue::new(2);
    queue.push_line("a".to_string());
    queue.close();
    assert!(queue.is_closed_now());
    queue.push_line("b".to_string());
    assert_eq!(queue.pop_line().as_deref(), Some("a"));
    assert_eq!(queue.pop_line(), None);
    assert_eq!(queue.take_dropped_count(), 0);
}
