use geohog::collections::QueueMap;

#[derive(Debug, PartialEq)]
struct NonCopy(String);

impl NonCopy {
    fn new(s: &str) -> Self {
        NonCopy(s.to_owned())
    }
}

#[test]
fn inserting_and_popping() {
    let mut queue = QueueMap::new();

    assert!(queue.push_back(10, NonCopy::new("first")));
    assert!(queue.push_back(20, NonCopy::new("second")));
    assert!(queue.push_back(30, NonCopy::new("third")));
    assert!(!queue.push_back(30, NonCopy::new("duplicate")));
    assert!(queue.push_back(40, NonCopy::new("fourth")));
    assert!(queue.push_back(50, NonCopy::new("fifth")));

    assert_eq!(queue.get(&30), Some(&NonCopy::new("third")));
    assert_eq!(queue.get(&50), Some(&NonCopy::new("fifth")));
    assert_eq!(queue.get(&70), None);

    assert_eq!(queue.pop_front(), Some((10, NonCopy::new("first"))));
    assert_eq!(queue.pop_front(), Some((20, NonCopy::new("second"))));

    assert!(queue.push_back(60, NonCopy::new("sixth")));
    assert!(queue.push_back(70, NonCopy::new("seventh")));
    assert!(!queue.push_back(50, NonCopy::new("duplicate")));

    assert_eq!(queue.pop_front(), Some((30, NonCopy::new("third"))));
    assert_eq!(queue.pop_front(), Some((40, NonCopy::new("fourth"))));
    assert_eq!(queue.pop_front(), Some((50, NonCopy::new("fifth"))));
    assert_eq!(queue.pop_front(), Some((60, NonCopy::new("sixth"))));
    assert_eq!(queue.pop_front(), Some((70, NonCopy::new("seventh"))));
    assert_eq!(queue.pop_front(), None);
    assert_eq!(queue.pop_front(), None);
}

#[test]
fn popped_key_can_be_queued_again() {
    let mut queue: QueueMap<u32, &str> = QueueMap::new();
    assert!(queue.push_back(1, "a"));
    assert_eq!(queue.pop_front(), Some((1, "a")));
    assert_eq!(queue.get(&1), None);
    assert!(queue.push_back(1, "b"));
    assert_eq!(queue.get(&1), Some(&"b"));
}

#[test]
fn duplicate_push_keeps_first_value() {
    let mut queue: QueueMap<u8, u8> = QueueMap::new();
    assert!(queue.push_back(7, 1));
    assert!(!queue.push_back(7, 2));
    assert_eq!(queue.get(&7), Some(&1));
    assert_eq!(queue.pop_front(), Some((7, 1)));
    assert_eq!(queue.pop_front(), None);
}

#[test]
fn iterator_walks_values_oldest_first() {
    let mut queue: QueueMap<u64, &str> = QueueMap::new();
    queue.push_back(3, "c");
    queue.push_back(1, "a");
    queue.push_back(2, "b");
    let mut it = queue.iter();
    assert_eq!(it.next(), Some(&"c"));
    assert_eq!(it.next(), Some(&"a"));
    assert_eq!(it.next(), Some(&"b"));
    assert_eq!(it.next(), None);
    assert_eq!(it.next(), None);
}

#[test]
fn empty_queue_iterates_nothing() {
    let queue: QueueMap<u64, u64> = QueueMap::new();
    assert_eq!(queue.iter().next(), None);
}

#[test]
fn popped_key_requeued_after_other_operations() {
    let mut queue: QueueMap<u32, &str> = QueueMap::new();
    assert!(queue.push_back(1, "a"));
    assert!(queue.push_back(2, "b"));
    assert_eq!(queue.pop_front(), Some((1, "a")));
    assert!(queue.push_back(3, "c"));
    assert_eq!(queue.pop_front(), Some((2, "b")));
    assert_eq!(queue.get(&1), None);
    assert!(queue.push_back(1, "again"));
    assert_eq!(queue.get(&1), Some(&"again"));
    assert_eq!(queue.pop_front(), Some((3, "c")));
    assert_eq!(queue.pop_front(), Some((1, "again")));
}
