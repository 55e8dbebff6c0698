use node_list::link::NodeList;

fn collect(list: &NodeList<u32>) -> Vec<u32> {
    let mut out = Vec::new();
    let mut it = list.iter();
    while let Some(v) = it.next(list) {
        out.push(*v);
    }
    out
}

#[test]
fn new_is_empty() {
    let l: NodeList<u32> = NodeList::new();
    assert_eq!(l.len(), 0);
    assert!(l.tail().is_none());
}

#[test]
fn push_keeps_order() {
    let mut l = NodeList::new();
    for v in [3u32, 1, 4, 1, 5] {
        l.push(v);
    }
    assert_eq!(l.len(), 5);
    assert_eq!(collect(&l), vec![3, 1, 4, 1, 5]);
}

#[test]
fn shift_yields_push_order() {
    let mut l = NodeList::new();
    for v in [7u32, 8, 9] {
        l.push(v);
    }
    assert_eq!(l.shift(), Some(7));
    assert_eq!(l.shift(), Some(8));
    assert_eq!(l.shift(), Some(9));
    assert_eq!(l.shift(), None);
    assert_eq!(l.len(), 0);
}

#[test]
fn unshift_then_shift_restores() {
    let mut l = NodeList::new();
    l.push(1u32);
    l.push(2);
    l.unshift(42);
    assert_eq!(l.shift(), Some(42));
    assert_eq!(collect(&l), vec![1, 2]);
}

#[test]
fn shift_on_empty_is_absent() {
    let mut l: NodeList<u32> = NodeList::new();
    assert_eq!(l.shift(), None);
}

#[test]
fn pop_removes_second_to_last_and_its_tail() {
    let mut l = NodeList::new();
    for v in [1u32, 2, 3, 4] {
        l.push(v);
    }
    // The cell before the tail is detached, and the final cell, owned by
    // it, goes with it.
    assert_eq!(l.pop(), Some(3));
    assert_eq!(collect(&l), vec![1, 2]);
    assert_eq!(l.pop(), Some(1));
    assert_eq!(l.len(), 0);
}

#[test]
fn pop_on_short_lists_is_absent() {
    let mut l: NodeList<u32> = NodeList::new();
    assert_eq!(l.pop(), None);
    l.push(5);
    assert_eq!(l.pop(), None);
    assert_eq!(l.len(), 1);
    assert_eq!(collect(&l), vec![5]);
}

#[test]
fn pop_on_two_elements_empties_the_list() {
    let mut l = NodeList::new();
    l.push(10u32);
    l.push(20);
    assert_eq!(l.pop(), Some(10));
    assert_eq!(l.len(), 0);
}

#[test]
fn insert_at_zero_is_unshift() {
    let mut a = NodeList::new();
    let mut b = NodeList::new();
    for v in [1u32, 2, 3] {
        a.push(v);
        b.push(v);
    }
    let h = a.insert(9, 0);
    assert_eq!(h, Some(0));
    b.unshift(9);
    assert_eq!(collect(&a), collect(&b));
    assert_eq!(collect(&a), vec![9, 1, 2, 3]);
}

#[test]
fn insert_in_the_middle_and_at_the_end() {
    let mut l = NodeList::new();
    for v in [1u32, 2, 4] {
        l.push(v);
    }
    let h = l.insert(3, 2);
    assert_eq!(h, Some(2));
    assert_eq!(collect(&l), vec![1, 2, 3, 4]);
    // Inserting right at the length appends.
    let h = l.insert(5, 4);
    assert_eq!(h, Some(4));
    assert_eq!(collect(&l), vec![1, 2, 3, 4, 5]);
}

#[test]
fn insert_past_the_length_is_a_no_op() {
    let mut l = NodeList::new();
    for v in [1u32, 2] {
        l.push(v);
    }
    assert_eq!(l.insert(9, 3), None);
    assert_eq!(l.len(), 2);
    assert_eq!(collect(&l), vec![1, 2]);
    let mut e: NodeList<u32> = NodeList::new();
    assert_eq!(e.insert(9, 1), None);
    assert_eq!(e.len(), 0);
}

#[test]
fn find_absent_on_empty_and_without_match() {
    let e: NodeList<u32> = NodeList::new();
    assert!(e.find(1).is_none());
    let mut l = NodeList::new();
    for v in [1u32, 2, 3] {
        l.push(v);
    }
    assert!(l.find(9).is_none());
}

#[test]
fn find_returns_the_first_match() {
    let mut l = NodeList::new();
    for v in [5u32, 6, 7, 6] {
        l.push(v);
    }
    let n = l.find(6).unwrap();
    assert_eq!(*n.data(), 6);
    assert!(l.find(7).is_some());
}

#[test]
fn set_then_get_returns_written_value() {
    let mut l = NodeList::new();
    for v in [1u32, 2, 3] {
        l.push(v);
    }
    l.set(1, 99);
    assert_eq!(*l.get(1), 99);
    assert_eq!(*l.get(0), 1);
    assert_eq!(*l.get(2), 3);
}

#[test]
fn tail_is_the_last_element() {
    let mut l = NodeList::new();
    l.push(4u32);
    l.push(5);
    assert_eq!(l.tail(), Some(&5));
}

#[test]
fn make_test_holds_its_three_values() {
    let mut l = NodeList::make_test();
    assert_eq!(l.len(), 3);
    assert_eq!(l.shift(), Some(10));
    assert_eq!(l.shift(), Some(20));
    assert_eq!(l.shift(), Some(99));
}

#[test]
fn drop_empties_the_list() {
    let mut l = NodeList::new();
    for v in [1u32, 2, 3] {
        l.push(v);
    }
    l.drop();
    assert_eq!(l.len(), 0);
    assert_eq!(l.shift(), None);
}

#[test]
fn into_vec_drains_front_first() {
    let mut l = NodeList::new();
    for v in [1u32, 2, 3] {
        l.push(v);
    }
    assert_eq!(l.into_vec(), vec![1, 2, 3]);
}
