use gilbert::balancer::{Balancer, ListTask, QueueNode, SortingPriority};

#[test]
fn single_node() {
    let node = QueueNode::new(0, 0);
    let mut balancer = Balancer::new(vec![node]);
    assert!(balancer.enqueue(ListTask { can_run: vec![0], id: 0 }).is_ok());
    assert!(balancer.enqueue(ListTask { can_run: vec![0, 1, 2], id: 1 }).is_ok());
    assert!(balancer.enqueue(ListTask { can_run: vec![1, 2], id: 2 }).is_err());
    let nodes = balancer.into_nodes();
    assert_eq!(nodes[0].queue, vec![0, 1]);
}

#[test]
fn multi_node() {
    let node_a = QueueNode::new(0, 0);
    let node_b = QueueNode::new(0, 1);
    let mut balancer = Balancer::new(vec![node_a, node_b]);
    assert!(balancer.enqueue(ListTask { can_run: vec![0], id: 0 }).is_ok());
    assert!(balancer.enqueue(ListTask { can_run: vec![0, 1, 2], id: 1 }).is_ok());
    assert!(balancer.enqueue(ListTask { can_run: vec![1, 2], id: 2 }).is_ok());
    let nodes = balancer.into_nodes();
    assert_eq!(nodes[0].queue, vec![0]);
    assert_eq!(nodes[1].queue, vec![1, 2]);
}

#[test]
fn balancer_tie_prefers_priority() {
    // Two empty nodes; the higher priority wins the tie. After one node
    // has two tasks and the other none, the shorter queue wins.
    let n1 = QueueNode::new(5, 1);
    let n2 = QueueNode::new(3, 2);
    let mut balancer = Balancer::new(vec![n1, n2]);
    assert!(balancer.enqueue(ListTask { can_run: vec![1, 2], id: 10 }).is_ok());
    let nodes = balancer.into_nodes();
    assert_eq!(nodes[0].queue, vec![10]);
    assert_eq!(nodes[1].queue, Vec::<usize>::new());

    let mut n1 = QueueNode::new(5, 1);
    let n2 = QueueNode::new(3, 2);
    n1.queue = vec![10, 11];
    let mut balancer = Balancer::new(vec![n1, n2]);
    assert!(balancer.enqueue(ListTask { can_run: vec![1, 2], id: 12 }).is_ok());
    let nodes = balancer.into_nodes();
    assert_eq!(nodes[0].queue, vec![10, 11]);
    assert_eq!(nodes[1].queue, vec![12]);
}

#[test]
fn no_eligible_node_returns_task() {
    let n1 = QueueNode::new(0, 7);
    let mut balancer = Balancer::new(vec![n1]);
    let rejected = balancer.enqueue(ListTask { can_run: vec![8, 9], id: 1 });
    match rejected {
        Err(t) => assert_eq!(t.id, 1),
        Ok(()) => panic!("task had no eligible node"),
    }
}

#[test]
fn sorting_priority_orders_queue_then_priority() {
    let a = SortingPriority { queue_length: 0, priority: 1 };
    let b = SortingPriority { queue_length: 1, priority: 9 };
    assert!(a < b);
    let c = SortingPriority { queue_length: 1, priority: 2 };
    assert!(b < c);
    assert_eq!(b.partial_cmp(&b), Some(std::cmp::Ordering::Equal));
}
