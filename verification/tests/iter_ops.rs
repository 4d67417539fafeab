use fwdlist::List;

fn mklist<T, I: IntoIterator<Item = T>>(items: I) -> List<T> {
    let mut c = List::new().cursor();
    for v in items {
        c.insert(v);
    }
    c.finish()
}

#[test]
fn into_iter() {
    let mut l = List::new();
    for i in 1..10 {
        l.push_back(i);
    }
    assert_eq!(l.len(), 9);
    let mut acc = 0;
    let mut it = l.into_iter();
    while let Some(v) = it.next() {
        acc += v;
    }
    assert_eq!(acc, 45);
}

#[test]
fn ref_iter() {
    let mut l = List::new();
    for i in 1..10 {
        l.push_back(i);
    }
    assert_eq!(l.len(), 9);
    let mut acc = 0;
    let mut it = l.iter();
    while let Some(v) = it.next() {
        acc += *v;
    }
    assert_eq!(acc, 45);
    assert_eq!(l.len(), 9);
}

struct NotClonable(usize);

#[test]
fn ref_iter_clone() {
    let mut l = List::new();
    for i in 1..10 {
        l.push_back(NotClonable(i));
    }
    assert_eq!(l.len(), 9);
    let i = l.iter();
    let i2 = i.clone();

    for mut j in [i, i2] {
        let mut acc = 0;
        while let Some(v) = j.next() {
            acc += v.0;
        }
        assert_eq!(acc, 45);
        assert_eq!(l.len(), 9);
    }
}

#[test]
fn mutref_iter() {
    let mut l = List::new();
    for i in 1..10 {
        l.push_back(i);
    }
    assert_eq!(l.len(), 9);
    let mut acc = 0;
    let mut it = l.iter_mut();
    while let Some(v) = it.next() {
        acc += *v;
        *v += 1;
    }
    let mut l = it.finish();
    assert_eq!(acc, 45);
    assert_eq!(l.len(), 9);

    let mut acc = 0;
    let mut it = l.iter_mut();
    while let Some(v) = it.next() {
        acc += *v;
        *v += 1;
    }
    let l = it.finish();
    assert_eq!(acc, 54);
    assert_eq!(l.len(), 9);
}

#[test]
fn mutref_iter_advanced() {
    let mut l = mklist(0..10);
    assert_eq!(l.len(), 10);
    {
        let mut iter = l.iter_mut();
        for i in 0..9 {
            let v = *iter.next().unwrap();
            if i == 6 {
                assert_eq!(v, 150);
            } else if i > 7 {
                assert_eq!(v, i + 1);
            } else {
                assert_eq!(v, i);
            }
            if i == 3 {
                iter.insert_next(42);
            }
            if i < 8 {
                assert_eq!(*iter.peek_next().unwrap(), i + 1);
            }
            if i == 5 {
                *iter.peek_next_mut().unwrap() = 150;
            }
            if i == 7 {
                assert_eq!(iter.remove_next(), Some(8));
            }
        }
        l = iter.finish();
    }
    assert_eq!(l.len(), 10);

    let mut it = l.into_iter();
    for &i in &[0, 1, 2, 3, 42, 4, 5, 150, 7, 9] {
        assert_eq!(it.next(), Some(i));
    }
}
