use gotham_store::{same_type, GothamStore, Plain, Storable};

#[derive(Debug, PartialEq)]
struct Point {
    x: i32,
    y: i32,
}

#[derive(Debug, PartialEq)]
struct Label(&'static str);

#[derive(Debug, PartialEq)]
struct Marker;

// `plain` is read by proofs only and never runs.
impl Storable for Point {
    fn plain(&self) -> Plain {
        unreachable!()
    }
}

impl Storable for Label {
    fn plain(&self) -> Plain {
        unreachable!()
    }
}

impl Storable for Marker {
    fn plain(&self) -> Plain {
        unreachable!()
    }
}

type Name = String;
type Title = String;

#[test]
fn new_store_is_empty() {
    let store = GothamStore::new();
    assert!(store.is_empty());
    assert_eq!(store.len(), 0);
    assert!(!store.has::<Point>());
    assert!(store.try_borrow::<Point>().is_none());
}

#[test]
fn put_then_has_and_borrow() {
    let mut store = GothamStore::new();
    store.put(String::from("hello"));
    assert!(store.has::<String>());
    assert_eq!(store.borrow::<String>(), "hello");
    assert_eq!(store.try_borrow::<String>(), Some(&String::from("hello")));
}

#[test]
fn put_twice_keeps_one_entry_with_second_value() {
    let mut store = GothamStore::new();
    store.put(Point { x: 1, y: 2 });
    store.put(Point { x: 3, y: 4 });
    assert_eq!(store.len(), 1);
    assert_eq!(store.borrow::<Point>(), &Point { x: 3, y: 4 });
    assert_eq!(store.take::<Point>(), Point { x: 3, y: 4 });
    assert!(!store.has::<Point>());
    assert!(store.is_empty());
}

#[test]
fn distinct_types_do_not_disturb_each_other() {
    let mut store = GothamStore::new();
    store.put(Point { x: 1, y: 1 });
    store.put(Label("first"));
    assert_eq!(store.len(), 2);
    assert_eq!(store.borrow::<Point>(), &Point { x: 1, y: 1 });
    assert_eq!(store.borrow::<Label>(), &Label("first"));
    store.put(Label("second"));
    assert_eq!(store.len(), 2);
    assert_eq!(store.borrow::<Point>(), &Point { x: 1, y: 1 });
    assert_eq!(store.borrow::<Label>(), &Label("second"));
    assert_eq!(store.take::<Point>(), Point { x: 1, y: 1 });
    assert!(store.has::<Label>());
    assert_eq!(store.borrow::<Label>(), &Label("second"));
    assert_eq!(store.len(), 1);
}

#[test]
fn integers_of_different_width_are_different_types() {
    let mut store = GothamStore::new();
    store.put(7u32);
    store.put(-7i32);
    store.put(70u64);
    assert_eq!(store.len(), 3);
    assert_eq!(*store.borrow::<u32>(), 7);
    assert_eq!(*store.borrow::<i32>(), -7);
    assert_eq!(*store.borrow::<u64>(), 70);
    assert!(!store.has::<u8>());
}

#[test]
fn bool_and_char_are_kept_apart() {
    let mut store = GothamStore::new();
    store.put(true);
    store.put('x');
    assert_eq!(store.len(), 2);
    assert!(*store.borrow::<bool>());
    assert_eq!(*store.borrow::<char>(), 'x');
    *store.borrow_mut::<bool>() = false;
    assert!(!*store.borrow::<bool>());
    assert_eq!(store.take::<char>(), 'x');
    assert!(store.has::<bool>());
}

#[test]
fn try_borrow_is_none_exactly_when_absent() {
    let mut store = GothamStore::new();
    assert_eq!(store.has::<Point>(), store.try_borrow::<Point>().is_some());
    store.put(Point { x: 0, y: 0 });
    assert_eq!(store.has::<Point>(), store.try_borrow::<Point>().is_some());
    assert_eq!(store.has::<Label>(), store.try_borrow::<Label>().is_some());
    store.take::<Point>();
    assert_eq!(store.has::<Point>(), store.try_borrow::<Point>().is_some());
    assert!(!store.has::<Point>());
}

#[test]
fn take_then_absent() {
    let mut store = GothamStore::new();
    store.put(Label("gone"));
    assert_eq!(store.take::<Label>(), Label("gone"));
    assert!(!store.has::<Label>());
    assert!(store.try_borrow::<Label>().is_none());
    assert!(store.try_borrow_mut::<Label>().is_none());
    assert!(store.try_take::<Label>().is_none());
}

#[test]
fn try_take_of_absent_type_changes_nothing() {
    let mut store = GothamStore::new();
    store.put(Point { x: 9, y: 8 });
    assert!(store.try_take::<Label>().is_none());
    assert_eq!(store.len(), 1);
    assert_eq!(store.borrow::<Point>(), &Point { x: 9, y: 8 });
}

#[test]
fn try_borrow_mut_of_absent_type_changes_nothing() {
    let mut store = GothamStore::new();
    store.put(Point { x: 9, y: 8 });
    assert!(store.try_borrow_mut::<Label>().is_none());
    assert_eq!(store.len(), 1);
    assert_eq!(store.borrow::<Point>(), &Point { x: 9, y: 8 });
}

#[test]
fn taking_from_the_middle_keeps_the_rest() {
    let mut store = GothamStore::new();
    store.put(1u8);
    store.put(2u16);
    store.put(3u32);
    store.put(4u64);
    assert_eq!(store.take::<u16>(), 2);
    assert_eq!(store.len(), 3);
    assert_eq!(*store.borrow::<u8>(), 1);
    assert_eq!(*store.borrow::<u32>(), 3);
    assert_eq!(*store.borrow::<u64>(), 4);
    assert!(!store.has::<u16>());
    store.put(20u16);
    assert_eq!(store.len(), 4);
    assert_eq!(*store.borrow::<u16>(), 20);
    assert_eq!(store.take::<u8>(), 1);
    assert_eq!(store.take::<u64>(), 4);
    assert_eq!(*store.borrow::<u32>(), 3);
    assert_eq!(*store.borrow::<u16>(), 20);
    assert_eq!(store.len(), 2);
}

#[test]
fn borrow_mut_writes_through_to_one_entry_only() {
    let mut store = GothamStore::new();
    store.put(10u32);
    store.put(String::from("left alone"));
    *store.borrow_mut::<u32>() += 5;
    store.borrow_mut::<String>().push('!');
    assert_eq!(*store.borrow::<u32>(), 15);
    assert_eq!(store.borrow::<String>(), "left alone!");
    assert_eq!(store.len(), 2);
}

#[test]
fn aliases_of_one_type_share_one_entry() {
    let mut store = GothamStore::new();
    store.put::<Name>("ada".to_string());
    assert!(store.has::<Title>());
    assert_eq!(store.borrow::<Title>(), "ada");
    store.borrow_mut::<Title>().push_str(" lovelace");
    assert_eq!(store.borrow::<Name>(), "ada lovelace");
    assert_eq!(store.len(), 1);
    assert_eq!(store.take::<Title>(), "ada lovelace");
    assert!(!store.has::<Name>());
    assert!(!store.has::<Title>());
    assert!(store.is_empty());
}

#[test]
fn size_follows_put_and_take() {
    let mut store = GothamStore::default();
    assert_eq!(store.len(), 0);
    assert!(store.is_empty());
    store.put(Marker);
    assert_eq!(store.len(), 1);
    assert!(!store.is_empty());
    assert_eq!(store.take::<Marker>(), Marker);
    assert_eq!(store.len(), 0);
    assert!(store.is_empty());
}

#[test]
fn point_scenario() {
    let mut store = GothamStore::new();
    store.put(Point { x: 1, y: 1 });
    assert!(store.has::<Point>());
    store.borrow_mut::<Point>().x += 1;
    assert_eq!(store.take::<Point>(), Point { x: 2, y: 1 });
    assert!(!store.has::<Point>());
}

#[test]
fn debug_output_names_the_store() {
    let store = GothamStore::new();
    let text = format!("{:?}", store);
    assert!(text.starts_with("GothamStore"));
}

#[test]
fn same_type_tells_types_apart() {
    assert!(same_type::<String, String>());
    assert!(same_type::<Name, Title>());
    assert!(same_type::<Point, Point>());
    assert!(!same_type::<u32, i32>());
    assert!(!same_type::<Point, Label>());
    assert!(!same_type::<u32, u64>());
    assert!(!same_type::<char, String>());
}
