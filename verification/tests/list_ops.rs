use fwdlist::List;

#[test]
fn basics() {
    let mut l = List::new();
    assert_eq!(l.len(), 0);
    assert!(l.is_empty());
    l.push_back(10);
    assert_eq!(l.len(), 1);
    l.push_back(15);
    l.push_back(20);
    assert_eq!(l.len(), 3);
    assert_eq!(l.pop_back(), Some(20));
    assert_eq!(l.len(), 2);
    assert_eq!(l.pop_front(), Some(10));
    assert_eq!(l.len(), 1);
    l.push_front(5);
    assert_eq!(l.len(), 2);

    assert_eq!(*l.front().unwrap(), 5);
    assert_eq!(*l.back().unwrap(), 15);

    *l.front_mut().unwrap() = 50;
    *l.back_mut().unwrap() = 150;

    assert_eq!(l.pop_back(), Some(150));
    assert_eq!(l.len(), 1);
    assert_eq!(l.pop_front(), Some(50));
    assert_eq!(l.len(), 0);
}

#[test]
fn extra_append() {
    let mut a = List::new();
    let mut b = List::new();
    for i in 0..5 {
        b.push_front(i);
    }
    assert_eq!(a.len(), 0);
    assert_eq!(b.len(), 5);
    a.append(&mut b);
    assert_eq!(a.len(), 5);
    assert_eq!(b.len(), 0);
}

#[test]
fn split_off() {
    let mut a = List::new();
    for i in 0..20 {
        a.push_front(i);
    }
    let b = a.split_off(7);
    assert_eq!(a.len(), 7);
    assert_eq!(b.len(), 13);
    assert_eq!(*a.front().unwrap(), 19);
    assert_eq!(*a.back().unwrap(), 13);
    assert_eq!(*b.front().unwrap(), 12);
    assert_eq!(*b.back().unwrap(), 0);

    let mut a = List::new();
    for i in 0..10 {
        a.push_front(i);
    }
    let b = a.split_off(10);
    assert_eq!(a.len(), 10);
    assert_eq!(b.len(), 0);
}

const BIGLIST_SIZE: usize = 1024 * 1024;

fn make_biglist() -> List<i64> {
    let mut l = List::new();
    for i in (0..BIGLIST_SIZE).rev() {
        l.push_front(i as i64);
    }
    l
}

#[test]
fn biglist() {
    let l = make_biglist();
    assert_eq!(l.len(), BIGLIST_SIZE);
}

#[test]
fn one_penultimate_safe() {
    let mut l = make_biglist();
    let v = l.back_mut().unwrap();
    assert_eq!(*v, BIGLIST_SIZE as i64 - 1);
}
