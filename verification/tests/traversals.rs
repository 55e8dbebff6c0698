use node_list::link::NodeList;
use node_list::link::add_to_all;

#[test]
fn shared_traversal_is_restartable() {
    let mut l = NodeList::new();
    l.push(1u32);
    l.push(2);
    assert_eq!(l.next(), Some(1));
    assert_eq!(l.next(), Some(2));
    // Past the end: nothing is yielded and the cursor resets.
    assert_eq!(l.next(), None);
    assert_eq!(l.next(), Some(1));
    assert_eq!(l.next(), Some(2));
}

#[test]
fn shared_traversal_on_empty_yields_nothing() {
    let mut l: NodeList<u32> = NodeList::new();
    assert_eq!(l.next(), None);
    assert_eq!(l.next(), None);
}

#[test]
fn one_shot_cursor_does_not_restart() {
    let mut l = NodeList::new();
    l.push(1u32);
    l.push(2);
    let mut it = l.iter();
    assert_eq!(it.next(&l), Some(&1));
    assert_eq!(it.next(&l), Some(&2));
    assert_eq!(it.next(&l), None);
    assert_eq!(it.next(&l), None);
}

#[test]
fn cursors_are_independently_positioned() {
    let mut l = NodeList::new();
    l.push(1u32);
    l.push(2);
    let mut a = l.iter();
    let mut b = l.iter();
    assert_eq!(a.next(&l), Some(&1));
    assert_eq!(b.next(&l), Some(&1));
    assert_eq!(a.next(&l), Some(&2));
}

#[test]
fn mutable_cursor_updates_every_element() {
    let mut l = NodeList::new();
    for v in [1u32, 2, 3] {
        l.push(v);
    }
    let mut it = l.mut_iter();
    loop {
        let x = match it.next(&l) {
            None => break,
            Some(v) => *v,
        };
        assert!(it.set(&mut l, x + 200));
    }
    assert_eq!(l.into_vec(), vec![201, 202, 203]);
}

#[test]
fn mutable_cursor_set_before_first_step_fails() {
    let mut l = NodeList::new();
    l.push(1u32);
    let it = l.mut_iter();
    assert!(!it.set(&mut l, 9));
    assert_eq!(*l.get(0), 1);
}

#[test]
fn add_to_all_updates_every_element() {
    let mut l = NodeList::new();
    for v in [10u32, 20, 30] {
        l.push(v);
    }
    add_to_all(&mut l, 5);
    assert_eq!(l.into_vec(), vec![15, 25, 35]);
}

#[test]
fn my_map_replaces_every_element() {
    let mut l = NodeList::new();
    for v in [1u32, 2, 3] {
        l.push(v);
    }
    l.my_map(|x: &u32| x * 2);
    assert_eq!(l.into_vec(), vec![2, 4, 6]);
}

#[test]
fn driver_scenario() {
    let mut list = NodeList::new();
    for v in [10u32, 20, 30, 40, 50, 60, 70] {
        list.push(v);
    }
    // Each removal detaches the cell before the tail and, with it, the
    // final cell it owns.
    assert_eq!(list.pop(), Some(60));
    assert_eq!(list.pop(), Some(40));
    assert_eq!(list.shift(), Some(10));
    list.unshift(11);
    let mut seen = Vec::new();
    while let Some(v) = list.next() {
        seen.push(v);
    }
    assert_eq!(seen, vec![11, 20, 30]);
    assert!(list.find(40).is_none());
    assert_eq!(list.insert(55, 0), Some(0));
    let inserted = list.insert(33, 3);
    assert_eq!(inserted, Some(3));
    assert_eq!(*list.get(3), 33);
    let mut order = Vec::new();
    let mut it = list.iter();
    while let Some(v) = it.next(&list) {
        order.push(*v);
    }
    assert_eq!(order, vec![55, 11, 20, 33, 30]);
}
