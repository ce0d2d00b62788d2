use parser_core::storage::Storage;

#[test]
fn insert_then_get_returns_value() {
    let mut s: Storage<i32> = Storage::new();
    let h1 = s.add(10);
    let h2 = s.add(20);
    assert_eq!(s.get(h1), Some(&10));
    assert_eq!(s.get(h2), Some(&20));
}

#[test]
fn get_after_remove_returns_nothing() {
    let mut s: Storage<i32> = Storage::new();
    let h = s.add(5);
    assert_eq!(s.remove(h), Some(5));
    assert_eq!(s.get(h), None);
}

#[test]
fn remove_twice_returns_value_once() {
    let mut s: Storage<String> = Storage::new();
    let h = s.add(String::from("x"));
    assert_eq!(s.remove(h), Some(String::from("x")));
    assert_eq!(s.remove(h), None);
    assert_eq!(s.remove(h), None);
}

#[test]
fn lifo_reuse_takes_last_freed_slot_first() {
    let mut s: Storage<i32> = Storage::new();
    let h1 = s.add(1);
    let h2 = s.add(2);
    let h3 = s.add(3);
    assert_eq!(s.remove(h1), Some(1));
    assert_eq!(s.remove(h2), Some(2));
    // The next insertion reuses h2's slot, the one after it h1's: the old
    // handles now alias the new values, which makes the order observable.
    let k1 = s.add(40);
    assert_eq!(s.get(h2), Some(&40));
    assert_eq!(s.get(h1), None);
    let k2 = s.add(50);
    assert_eq!(s.get(h1), Some(&50));
    assert_eq!(s.get(k1), Some(&40));
    assert_eq!(s.get(k2), Some(&50));
    assert_eq!(s.get(h3), Some(&3));
}

#[test]
fn exhausting_free_list_appends_new_slot() {
    let mut s: Storage<i32> = Storage::new();
    let h1 = s.add(1);
    assert_eq!(s.remove(h1), Some(1));
    let h2 = s.add(2);
    let h3 = s.add(3);
    assert_eq!(s.get(h2), Some(&2));
    assert_eq!(s.get(h3), Some(&3));
}

#[test]
fn get_mut_changes_value_in_place() {
    let mut s: Storage<i32> = Storage::new();
    let h = s.add(7);
    if let Some(v) = s.get_mut(h) {
        *v = 8;
    } else {
        panic!("slot should be occupied");
    }
    assert_eq!(s.get(h), Some(&8));
}

#[test]
fn get_mut_on_empty_slot_returns_nothing() {
    let mut s: Storage<i32> = Storage::new();
    let h = s.add(7);
    s.remove(h);
    assert!(s.get_mut(h).is_none());
}

#[test]
fn handles_are_copyable() {
    let mut s: Storage<i32> = Storage::new();
    let h = s.add(11);
    let h_copy = h;
    let h_clone = h.clone();
    assert_eq!(s.get(h), Some(&11));
    assert_eq!(s.get(h_copy), Some(&11));
    assert_eq!(s.get(h_clone), Some(&11));
}
