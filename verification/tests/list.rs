use persistent_list::List;

#[test]
fn basics() {
    let list = List::new();
    assert_eq!(list.head(), None);

    let list = list.prepend(1).prepend(2).prepend(3);
    assert_eq!(list.head(), Some(&3));

    let list = list.tail();
    assert_eq!(list.head(), Some(&2));

    let list = list.tail();
    assert_eq!(list.head(), Some(&1));

    let list = list.tail();
    assert_eq!(list.head(), None);

    let list = list.tail();
    assert_eq!(list.head(), None);
}

#[test]
fn iter() {
    let list = List::new().prepend(1).prepend(2).prepend(3);
    let mut iter = list.iter();
    assert_eq!(iter.next(), Some(&3));
    assert_eq!(iter.next(), Some(&2));
    assert_eq!(iter.next(), Some(&1));
}

#[test]
fn head_is_most_recent_prepend() {
    let list = List::new().prepend(10);
    assert_eq!(list.head(), Some(&10));
    let list = list.prepend(20);
    assert_eq!(list.head(), Some(&20));
    let list = list.prepend(30);
    assert_eq!(list.head(), Some(&30));
}

#[test]
fn drain_by_length() {
    let mut list = List::new();
    for i in 0..5u32 {
        list = list.prepend(i);
    }
    for _ in 0..5u32 {
        list = list.tail();
    }
    assert_eq!(list.head(), None);
    let over = list.tail();
    assert_eq!(over.head(), None);
}

#[test]
fn prepend_leaves_other_handles_alone() {
    let l1 = List::new().prepend(1);
    let l2 = l1.prepend(2);
    let _l3 = l2.prepend(3);
    let _l4 = l1.prepend(4);
    assert_eq!(l1.head(), Some(&1));
    assert_eq!(l2.head(), Some(&2));
    let mut it = l2.iter();
    assert_eq!(it.next(), Some(&2));
    assert_eq!(it.next(), Some(&1));
    assert_eq!(it.next(), None);
}

#[test]
fn iter_stops_after_last() {
    let empty: List<u8> = List::new();
    let mut it = empty.iter();
    assert_eq!(it.next(), None);
    assert_eq!(it.next(), None);

    let list = List::new().prepend(9);
    let mut it = list.iter();
    assert_eq!(it.next(), Some(&9));
    assert_eq!(it.next(), None);
    assert_eq!(it.next(), None);
}

#[test]
fn iter_restarts_fresh() {
    let list = List::new().prepend(1).prepend(2);
    let mut a = list.iter();
    assert_eq!(a.next(), Some(&2));
    let mut b = list.iter();
    assert_eq!(b.next(), Some(&2));
    assert_eq!(a.next(), Some(&1));
    assert_eq!(a.next(), None);
    assert_eq!(b.next(), Some(&1));
}

#[test]
fn shared_tail_released_in_either_order() {
    let base = List::new().prepend(1).prepend(2);
    let a = base.prepend(10);
    let b = base.prepend(20);
    drop(a);
    assert_eq!(b.head(), Some(&20));
    let mut it = b.iter();
    assert_eq!(it.next(), Some(&20));
    assert_eq!(it.next(), Some(&2));
    assert_eq!(it.next(), Some(&1));
    assert_eq!(it.next(), None);
    drop(base);
    assert_eq!(b.tail().head(), Some(&2));

    let base = List::new().prepend(5);
    let c = base.prepend(6);
    let d = base.prepend(7);
    drop(d);
    drop(base);
    assert_eq!(c.head(), Some(&6));
    assert_eq!(c.tail().head(), Some(&5));
}

#[test]
fn string_elements() {
    let list = List::new()
        .prepend(String::from("oldest"))
        .prepend(String::from("newest"));
    assert_eq!(list.head(), Some(&String::from("newest")));
    assert_eq!(list.tail().head(), Some(&String::from("oldest")));
    assert_eq!(list.head(), Some(&String::from("newest")));
}

#[test]
fn deep_teardown() {
    let mut list = List::new();
    for i in 0..100_000u32 {
        list = list.prepend(i);
    }
    assert_eq!(list.head(), Some(&99_999));
    drop(list);
}
