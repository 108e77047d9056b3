use rvkernel::libs::list::queuelist::QueueList;
use rvkernel::libs::list::queuelist::QueueNode;

#[test]
fn fifo_order() {
    let mut nodes = vec![QueueNode::new(); 5];
    let mut q = QueueList::new();
    assert!(q.is_empty());
    q.enqueue(&mut nodes, 3);
    q.enqueue(&mut nodes, 1);
    q.enqueue(&mut nodes, 4);
    assert!(!q.is_empty());
    assert_eq!(nodes[3].next, Some(1));
    assert_eq!(nodes[1].next, Some(4));
    assert_eq!(nodes[4].next, None);
    assert_eq!(q.dequeue(&nodes), Some(3));
    assert_eq!(q.dequeue(&nodes), Some(1));
    q.enqueue(&mut nodes, 0);
    assert_eq!(q.dequeue(&nodes), Some(4));
    assert_eq!(q.dequeue(&nodes), Some(0));
    assert_eq!(q.dequeue(&nodes), None);
    assert!(q.is_empty());
}

#[test]
fn reuse_after_dequeue() {
    let mut nodes = vec![QueueNode::new(); 2];
    let mut q = QueueList::new();
    q.enqueue(&mut nodes, 0);
    assert_eq!(q.dequeue(&nodes), Some(0));
    q.enqueue(&mut nodes, 0);
    q.enqueue(&mut nodes, 1);
    assert_eq!(q.dequeue(&nodes), Some(0));
    assert_eq!(q.dequeue(&nodes), Some(1));
    assert_eq!(q.dequeue(&nodes), None);
}
