use llgtrt::queue::{PriorityQueue, QueueEntry};

fn entry(request_id: u64, priority: u32, enqueue_time: u64) -> QueueEntry {
    QueueEntry { request_id, priority, enqueue_time }
}

fn drain(q: &mut PriorityQueue) -> Vec<u64> {
    let mut out = Vec::new();
    while let Some(e) = q.pop() {
        out.push(e.request_id);
    }
    out
}

#[test]
fn empty_queue_has_nothing_to_pop() {
    let mut q = PriorityQueue::new();
    assert!(q.is_empty());
    assert_eq!(q.len(), 0);
    assert_eq!(q.peek(), None);
    assert_eq!(q.pop(), None);
    assert_eq!(q.remove(3), None);
    assert!(!q.contains(3));
}

#[test]
fn higher_priority_is_popped_first() {
    let mut q = PriorityQueue::new();
    q.push(entry(0, 1, 0));
    q.push(entry(1, 5, 1));
    q.push(entry(2, 1, 2));
    assert_eq!(q.len(), 3);
    assert_eq!(q.peek(), Some(entry(1, 5, 1)));
    assert_eq!(drain(&mut q), vec![1, 0, 2]);
}

#[test]
fn equal_priority_is_popped_in_enqueue_order() {
    let mut q = PriorityQueue::new();
    for id in 0..6u64 {
        q.push(entry(id, 3, 10 + id));
    }
    assert_eq!(drain(&mut q), vec![0, 1, 2, 3, 4, 5]);
}

#[test]
fn equal_keys_keep_insertion_order() {
    let mut q = PriorityQueue::new();
    q.push(entry(7, 2, 100));
    q.push(entry(3, 2, 100));
    q.push(entry(9, 2, 100));
    assert_eq!(drain(&mut q), vec![7, 3, 9]);
}

#[test]
fn earlier_enqueue_time_wins_within_a_priority() {
    let mut q = PriorityQueue::new();
    q.push(entry(0, 4, 50));
    q.push(entry(1, 4, 20));
    q.push(entry(2, 9, 70));
    q.push(entry(3, 4, 35));
    assert_eq!(q.get(0), Some(entry(2, 9, 70)));
    assert_eq!(q.get(1), Some(entry(1, 4, 20)));
    assert_eq!(q.get(2), Some(entry(3, 4, 35)));
    assert_eq!(q.get(3), Some(entry(0, 4, 50)));
    assert_eq!(q.get(4), None);
}

#[test]
fn served_before_compares_priority_then_time() {
    assert!(entry(0, 5, 9).served_before(&entry(1, 4, 0)));
    assert!(!entry(0, 4, 0).served_before(&entry(1, 5, 9)));
    assert!(entry(0, 4, 1).served_before(&entry(1, 4, 2)));
    assert!(!entry(0, 4, 2).served_before(&entry(1, 4, 2)));
    assert!(!entry(0, 4, 3).served_before(&entry(1, 4, 2)));
}

#[test]
fn remove_takes_out_one_request_and_keeps_the_rest_in_order() {
    let mut q = PriorityQueue::new();
    q.push(entry(0, 1, 0));
    q.push(entry(1, 5, 1));
    q.push(entry(2, 1, 2));
    q.push(entry(3, 5, 3));
    assert!(q.contains(2));
    assert_eq!(q.find(1), 0);
    assert_eq!(q.find(2), 3);
    assert_eq!(q.find(42), 4);
    assert_eq!(q.remove(0), Some(entry(0, 1, 0)));
    assert_eq!(q.remove(0), None);
    assert!(!q.contains(0));
    assert_eq!(drain(&mut q), vec![1, 3, 2]);
}
