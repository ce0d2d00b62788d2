use parser_core::cursor::Keeper;

fn over(items: Vec<char>) -> Keeper<char, std::vec::IntoIter<char>> {
    Keeper::new(items.into_iter())
}

#[test]
fn next_walks_the_source_in_order() {
    let mut k = over(vec!['a', 'b', 'c']);
    assert_eq!(k.next(), Some(&'a'));
    assert_eq!(k.next(), Some(&'b'));
    assert_eq!(k.next(), Some(&'c'));
    assert_eq!(k.next(), None);
    assert_eq!(k.next(), None);
}

#[test]
fn back_then_next_replays_the_same_item() {
    let mut k = over(vec!['a', 'b', 'c']);
    assert_eq!(k.next(), Some(&'a'));
    assert_eq!(k.next(), Some(&'b'));
    k.back();
    assert_eq!(k.next(), Some(&'b'));
    // The position is back at 2: the next read yields the third item.
    assert_eq!(k.next(), Some(&'c'));
}

#[test]
fn load_loc_restores_the_saved_reading() {
    let mut k = over(vec!['x', 'y', 'z']);
    k.save_loc();
    assert_eq!(k.next(), Some(&'x'));
    assert_eq!(k.next(), Some(&'y'));
    k.load_loc();
    assert_eq!(k.next(), Some(&'x'));
}

#[test]
fn discard_loc_keeps_progress_and_load_restores_outer() {
    let mut k = over(vec!['a', 'b', 'c', 'd']);
    k.save_loc();
    assert_eq!(k.next(), Some(&'a'));
    k.save_loc();
    assert_eq!(k.next(), Some(&'b'));
    k.discard_loc();
    // Only the inner checkpoint was dropped: loading now restores the outer
    // one, taken before any reading.
    k.load_loc();
    assert_eq!(k.next(), Some(&'a'));
}

#[test]
fn get_past_exhausted_source_consistently_returns_nothing() {
    let mut k = over(vec!['a', 'b']);
    assert_eq!(k.get(5), None);
    assert_eq!(k.get(5), None);
    assert_eq!(k.get(2), None);
    assert_eq!(k.get(3), None);
    // Everything before the end is still there.
    assert_eq!(k.get(0), Some(&'a'));
    assert_eq!(k.get(1), Some(&'b'));
}

#[test]
fn interleaved_gets_match_sequential_nexts() {
    let items = vec!['p', 'q', 'r', 's'];
    let mut random_order = over(items.clone());
    let got = [
        (2, random_order.get(2).copied()),
        (0, random_order.get(0).copied()),
        (3, random_order.get(3).copied()),
        (1, random_order.get(1).copied()),
        (2, random_order.get(2).copied()),
    ];
    let mut sequential = over(items);
    let mut in_order: Vec<char> = Vec::new();
    while let Some(c) = sequential.next() {
        in_order.push(*c);
    }
    for (i, v) in got.iter() {
        assert_eq!(*v, in_order.get(*i).copied());
    }
}

#[test]
fn get_does_not_move_the_position() {
    let mut k = over(vec!['a', 'b', 'c']);
    assert_eq!(k.next(), Some(&'a'));
    assert_eq!(k.get(2), Some(&'c'));
    assert_eq!(k.get(0), Some(&'a'));
    assert_eq!(k.next(), Some(&'b'));
}

#[test]
fn get_mut_changes_a_buffered_item() {
    let mut k = Keeper::new(vec![1, 2, 3].into_iter());
    if let Some(v) = k.get_mut(1) {
        *v = 20;
    } else {
        panic!("index 1 should be reachable");
    }
    assert_eq!(k.next(), Some(&1));
    assert_eq!(k.next(), Some(&20));
    assert_eq!(k.next(), Some(&3));
}

#[test]
fn works_over_an_unbounded_source() {
    let mut k = Keeper::new(0u64..);
    assert_eq!(k.next(), Some(&0));
    assert_eq!(k.get(9), Some(&9));
    assert_eq!(k.next(), Some(&1));
}

#[test]
fn empty_source_yields_nothing() {
    let mut k = over(vec![]);
    assert_eq!(k.next(), None);
    assert_eq!(k.get(0), None);
}
