use pomotimer::sequence::CyclicList;
use pomotimer::timer::{ConfigError, Timer};

#[test]
fn empty_list_has_no_current() {
    let list: CyclicList<u32> = CyclicList::new();
    assert_eq!(list.len(), 0);
    assert!(list.current().is_none());

    let list: CyclicList<u32> = CyclicList::default();
    assert!(list.current().is_none());
}

#[test]
fn build_rejects_empty() {
    let r: Result<CyclicList<u32>, ConfigError> = CyclicList::build(Vec::new());
    assert!(matches!(r, Err(ConfigError::Empty)));
}

#[test]
fn build_starts_at_front() {
    let list = CyclicList::build(vec![10u32, 20, 30]).unwrap();
    assert_eq!(list.len(), 3);
    assert_eq!(list.cursor_index(), 0);
    assert_eq!(*list.current().unwrap(), 10);
    assert_eq!(*list.get(2), 30);
}

#[test]
fn push_back_keeps_cursor() {
    let mut list: CyclicList<u32> = CyclicList::new();
    list.push_back(1);
    list.push_back(2);
    list.push_back(3);
    assert_eq!(list.len(), 3);
    assert_eq!(*list.current().unwrap(), 1);
}

#[test]
fn advance_wraps_exactly_once_per_lap() {
    let mut list = CyclicList::build(vec![1u32, 2, 3]).unwrap();
    // A full lap from the front: the wrap comes on the last step only.
    assert!(!list.advance().wrapped);
    assert_eq!(*list.current().unwrap(), 2);
    assert!(!list.advance().wrapped);
    assert_eq!(*list.current().unwrap(), 3);
    assert!(list.advance().wrapped);
    assert_eq!(*list.current().unwrap(), 1);
    assert_eq!(list.cursor_index(), 0);
}

#[test]
fn retreat_wraps_to_the_back() {
    let mut list = CyclicList::build(vec![1u32, 2, 3]).unwrap();
    let r = list.retreat();
    assert!(r.wrapped);
    assert_eq!(*list.current().unwrap(), 3);
    assert!(!list.retreat().wrapped);
    assert_eq!(*list.current().unwrap(), 2);
    assert!(!list.retreat().wrapped);
    assert_eq!(*list.current().unwrap(), 1);
}

#[test]
fn single_item_always_wraps() {
    let mut list = CyclicList::build(vec![7u32]).unwrap();
    assert!(list.advance().wrapped);
    assert_eq!(*list.current().unwrap(), 7);
    assert!(list.retreat().wrapped);
    assert_eq!(*list.current().unwrap(), 7);
}

#[test]
fn holds_timers() {
    let t = Timer::new(String::from("Work"), "25m").unwrap();
    let mut list: CyclicList<Timer> = CyclicList::new();
    list.push_back(t);
    assert_eq!(list.current().unwrap().name, "Work");
    assert_eq!(list.current().unwrap().duration_secs, 1500);
}
