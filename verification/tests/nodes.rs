use snake::game::Snake;
use snake::game::SnakeNode;
use snake::geometry::Move;

#[test]
fn test_has_next1() {
    let node1 = SnakeNode::new(0, 0);
    assert!(!node1.has_next());
}

#[test]
fn test_has_next2() {
    let mut node1 = SnakeNode::new(0, 0);
    let node2 = SnakeNode::new(0, 0);
    node1.next_node = Some(Box::new(node2));
    assert!(node1.has_next());
}

#[test]
fn test_len1() {
    let mut node1 = SnakeNode::new(0, 0);
    let mut node2 = SnakeNode::new(0, 0);
    let node3 = SnakeNode::new(0, 0);
    node2.next_node = Some(Box::new(node3));
    node1.next_node = Some(Box::new(node2));
    assert_eq!(node1.len(), 3);
}

#[test]
fn test_len2() {
    let node1 = SnakeNode::new(0, 0);
    assert_eq!(node1.len(), 1);
}

#[test]
fn fresh_snake_has_head_and_tail_on_one_point() {
    let s = Snake::new(3, (1, 2, 3), -7, 9, Move::Left, Move::Left);
    assert_eq!(s.head.len(), 2);
    assert_eq!((s.head.x, s.head.y), (-7, 9));
    let tail = s.head.get_next().unwrap();
    assert_eq!((tail.x, tail.y), (-7, 9));
    assert!(tail.get_next().is_none());
    assert_eq!(s.stomach, 10);
    assert!(!s.has_lost);
    assert!(!s.boost);
    assert_eq!(s.id, 3);
    assert_eq!(s.color, (1, 2, 3));
}

#[test]
fn a_chain_can_be_copied() {
    let mut node1 = SnakeNode::new(1, 2);
    node1.next_node = Some(Box::new(SnakeNode::new(3, 4)));
    let copy = node1.clone();
    assert_eq!(copy, node1);
    node1.x = 9;
    assert_eq!(copy.x, 1);
    assert_eq!(copy.get_next().unwrap().y, 4);
}

#[test]
fn checked_len_counts_short_chains() {
    let mut node1 = SnakeNode::new(0, 0);
    assert_eq!(node1.checked_len(), Some(1));
    for i in 0..40 {
        node1.append(SnakeNode::new(i, 0));
    }
    assert_eq!(node1.checked_len(), Some(41));
    assert_eq!(node1.len(), 41);
}
