use fwdlist::List;

fn mklist<T, I: IntoIterator<Item = T>>(items: I) -> List<T> {
    let mut c = List::new().cursor();
    for v in items {
        c.insert(v);
    }
    c.finish()
}

fn assert_same<T: PartialEq + std::fmt::Debug>(l: &List<T>, want: &[T]) {
    assert_eq!(l.len(), want.len());
    let mut it = l.iter();
    for v in want {
        assert_eq!(it.next(), Some(v));
    }
    assert!(it.next().is_none());
}

#[test]
fn cursor_minimal() {
    let l = mklist(0..10);
    let mut i = 0;
    let mut it = l.cursor().into_iter();
    while let Some(c) = it.next() {
        assert_eq!(c.value(), Some(&i));
        i += 1;
    }
    assert_eq!(i, 10);
}

#[test]
fn cursor_next() {
    let l = mklist(0..10);
    let mut i = 0;
    let mut it = l.cursor().into_iter();
    while let Some(c) = it.next() {
        assert_eq!(c.len(), 10 - i);
        assert_eq!(c.value(), Some(&i));
        assert_eq!(c.value_mut(), Some(&mut i));
        assert_eq!(c.next(), true);
        i += 1;
        assert_eq!(c.len(), 10 - i);
        assert_eq!(c.value(), Some(&i));
        assert_eq!(c.value_mut(), Some(&mut i));
        i += 1;
    }
    assert_eq!(i, 10);
}

#[test]
fn cursor_checkpoint() {
    let l = mklist(0..10);
    let mut i = 0;
    let mut it = l.cursor().into_iter();
    while let Some(c) = it.next() {
        assert_eq!(c.value(), Some(&i));
        {
            let c2 = c.checkpoint();
            let mut j = i;
            let mut it2 = c2.into_iter();
            while let Some(c2v) = it2.next() {
                assert_eq!(c2v.value(), Some(&j));
                j += 1;
            }
            assert_eq!(j, 10);
            c.restore(it2.into_cursor());
        }
        i += 1;
    }
    assert_eq!(i, 10);
}

#[test]
fn cursor_nth() {
    let l = mklist(0..10);
    let mut c = l.cursor();

    assert_eq!(c.nth(3), 3);
    assert_eq!(c.value(), Some(&3));

    assert_eq!(c.nth(0), 0);
    assert_eq!(c.value(), Some(&3));

    assert_eq!(c.nth(6), 6);
    assert_eq!(c.value(), Some(&9));

    assert_eq!(c.nth(3), 1);
    assert_eq!(c.value(), None);
}

#[test]
fn cursor_last() {
    let l = mklist(0..8);
    let mut c = l.cursor();

    assert_eq!(c.last(), 7);
    assert_eq!(c.value(), Some(&7));
}

#[test]
fn cursor_end() {
    let l = mklist(0..6);
    let mut c = l.cursor();

    assert_eq!(c.end(), 6);
    assert_eq!(c.value(), None);
}

#[test]
fn cursor_insert() {
    let mut l = mklist(0..4);
    {
        let mut c = l.cursor();

        assert_eq!(c.len(), 4);
        assert_eq!(c.position(), 0);
        assert_eq!(c.value(), Some(&0));

        c.insert(42);

        assert_eq!(c.len(), 4);
        assert_eq!(c.position(), 1);
        assert_eq!(c.value(), Some(&0));
        l = c.finish();
    }
    assert_eq!(l.len(), 5);
    assert_same(&l, &[42, 0, 1, 2, 3]);
    {
        let mut c = l.cursor();
        assert_eq!(c.len(), 5);
        assert_eq!(c.position(), 0);
        assert_eq!(c.value(), Some(&42));

        assert_eq!(c.next(), true);

        assert_eq!(c.len(), 4);
        assert_eq!(c.position(), 1);
        assert_eq!(c.value(), Some(&0));

        c.insert(43);

        assert_eq!(c.len(), 4);
        assert_eq!(c.position(), 2);
        assert_eq!(c.value(), Some(&0));
        l = c.finish();
    }
    assert_eq!(l.len(), 6);
    assert_same(&l, &[42, 43, 0, 1, 2, 3]);
    {
        let mut c = l.cursor();
        assert_eq!(c.len(), 6);
        assert_eq!(c.position(), 0);
        assert_eq!(c.value(), Some(&42));

        for _ in 0..5 {
            assert_eq!(c.next(), true);
        }

        assert_eq!(c.len(), 1);
        assert_eq!(c.position(), 5);
        assert_eq!(c.value(), Some(&3));

        c.insert(44);

        assert_eq!(c.len(), 1);
        assert_eq!(c.position(), 6);
        assert_eq!(c.value(), Some(&3));
        l = c.finish();
    }
    assert_eq!(l.len(), 7);
    assert_same(&l, &[42, 43, 0, 1, 2, 44, 3]);
    {
        let mut c = l.cursor();
        assert_eq!(c.len(), 7);
        assert_eq!(c.position(), 0);
        assert_eq!(c.value(), Some(&42));

        for _ in 0..6 {
            assert_eq!(c.next(), true);
        }
        assert_eq!(c.next(), false);

        assert_eq!(c.len(), 0);
        assert_eq!(c.position(), 7);
        assert_eq!(c.value(), None);

        assert_eq!(c.next(), false);

        assert_eq!(c.len(), 0);
        assert_eq!(c.position(), 7);
        assert_eq!(c.value(), None);

        c.insert(45);

        assert_eq!(c.len(), 0);
        assert_eq!(c.position(), 8);
        assert_eq!(c.value(), None);

        c.insert(46);

        assert_eq!(c.len(), 0);
        assert_eq!(c.position(), 9);
        assert_eq!(c.value(), None);
        l = c.finish();
    }
    assert_eq!(l.len(), 9);
    assert_same(&l, &[42, 43, 0, 1, 2, 44, 3, 45, 46]);
}

#[test]
fn cursor_append() {
    let mut l = List::new();
    {
        let mut c = l.cursor();
        for i in 0..15 {
            c.insert(i);
        }
        assert_eq!(c.len(), 0);
        l = c.finish();
    }
    assert_eq!(l.len(), 15);
    assert_same(&l, &[0, 1, 2, 3, 4, 5, 6, 7, 8, 9, 10, 11, 12, 13, 14]);
}

#[test]
fn cursor_remove() {
    let mut l = mklist(0..10);
    {
        let mut c = l.cursor();
        assert_eq!(c.len(), 10);
        assert_eq!(c.position(), 0);
        assert_eq!(c.remove(), Some(0));
        assert_eq!(c.len(), 9);
        assert_eq!(c.position(), 0);
        let mut i = 1;
        let mut pos = 0;
        let mut it = c.iter_mut();
        while it.next(&mut c) {
            assert_eq!(c.len(), 10 - i);
            assert_eq!(c.position(), pos);
            assert_eq!(c.value(), Some(&i));
            if i == 5 {
                assert_eq!(c.remove(), Some(i));
                i += 1;
                pos += 0;
            }
            i += 1;
            pos += 1;
        }
        assert_eq!(c.len(), 0);
        l = c.finish();
    }
    assert_eq!(l.len(), 8);
}

#[test]
fn cursor_truncate() {
    let mut a = mklist(0..20);
    let mut b;
    {
        let mut c = a.cursor();
        assert_eq!(c.nth(10), 10);
        assert_eq!(c.len(), 10);
        b = c.truncate();
        assert_eq!(c.len(), 0);
        a = c.finish();
    }
    assert_same(&a, &[0, 1, 2, 3, 4, 5, 6, 7, 8, 9]);
    assert_same(&b, &[10, 11, 12, 13, 14, 15, 16, 17, 18, 19]);
    let mut c;
    {
        let mut bc = b.cursor();
        assert_eq!(bc.nth(9), 9);
        assert_eq!(bc.len(), 1);
        c = bc.truncate();
        assert_eq!(bc.len(), 0);
        b = bc.finish();
    }
    assert_same(&b, &[10, 11, 12, 13, 14, 15, 16, 17, 18]);
    assert_same(&c, &[19]);
    let d;
    {
        let mut cc = c.cursor();
        assert_eq!(cc.nth(1), 1);
        assert_eq!(cc.len(), 0);
        d = cc.truncate();
        assert_eq!(cc.len(), 0);
        c = cc.finish();
    }
    assert_same(&c, &[19]);
    assert_same(&d, &[]);
}

#[test]
fn cursor_splice() {
    let mut a = mklist(0..5);
    let mut b = mklist(30..35);
    {
        let mut c = a.cursor();
        c.nth(3);
        assert_eq!(c.len(), 2);
        assert_eq!(c.position(), 3);
        c.splice(&mut b);
        assert_eq!(c.len(), 2);
        assert_eq!(c.position(), 3 + 5);
        a = c.finish();
    }
    assert_eq!(a.len(), 10);
    assert_same(&a, &[0, 1, 2, 30, 31, 32, 33, 34, 3, 4]);
    assert_same(&b, &[]);
    {
        let mut c = b.cursor();
        assert_eq!(c.len(), 0);
        assert_eq!(c.position(), 0);
        c.splice(&mut mklist(10..15));
        assert_eq!(c.len(), 0);
        assert_eq!(c.position(), 5);
        b = c.finish();
    }
    assert_eq!(b.len(), 5);
    assert_same(&b, &[10, 11, 12, 13, 14]);
    {
        let mut c = b.cursor();
        assert_eq!(c.len(), 5);
        assert_eq!(c.position(), 0);
        c.splice(&mut mklist(5..10));
        assert_eq!(c.len(), 5);
        assert_eq!(c.position(), 5);
        b = c.finish();
    }
    assert_eq!(b.len(), 10);
    assert_same(&b, &[5, 6, 7, 8, 9, 10, 11, 12, 13, 14]);
    {
        let mut c = b.cursor();
        assert_eq!(c.len(), 10);
        assert_eq!(c.position(), 0);
        c.end();
        c.splice(&mut mklist(15..20));
        assert_eq!(c.len(), 0);
        assert_eq!(c.position(), 15);
        b = c.finish();
    }
    assert_eq!(b.len(), 15);
    assert_same(&b, &[5, 6, 7, 8, 9, 10, 11, 12, 13, 14, 15, 16, 17, 18, 19]);
}

#[test]
fn cursor_split() {
    let mut a = mklist(0..20);
    let b;
    {
        let mut c = a.cursor();
        assert_eq!(c.len(), 20);
        assert_eq!(c.position(), 0);
        b = c.split(10);
        assert_eq!(c.len(), 10);
        assert_eq!(c.position(), 0);
        a = c.finish();
    }
    assert_eq!(a.len(), 10);
    assert_same(&a, &[0, 1, 2, 3, 4, 5, 6, 7, 8, 9]);

    assert_eq!(b.len(), 10);
    assert_same(&b, &[10, 11, 12, 13, 14, 15, 16, 17, 18, 19]);
}

#[test]
fn cursor_remove_n() {
    let mut l = mklist(0..10);
    {
        let mut c = l.cursor();
        assert_eq!(c.position(), 0);
        assert_eq!(c.len(), 10);
        c.nth(3);
        assert_eq!(c.position(), 3);
        assert_eq!(c.len(), 7);
        let removed = c.remove_n(4);
        assert_same(&removed, &[3, 4, 5, 6]);
        assert_eq!(c.position(), 3);
        assert_eq!(c.len(), 3);
        l = c.finish();
    }
    assert_same(&l, &[0, 1, 2, 7, 8, 9]);
}

fn merge<T: Ord>(a: List<T>, b: List<T>) -> List<T> {
    let r = List::new();
    let mut ca = a.cursor();
    let mut cb = b.cursor();
    let mut co = r.cursor();
    loop {
        let cmpr = {
            if let (Some(x), Some(y)) = (ca.value(), cb.value()) {
                x.cmp(y)
            } else {
                break;
            }
        };
        if cmpr == std::cmp::Ordering::Less {
            co.splice(&mut ca.remove_n(1));
        } else {
            co.splice(&mut cb.remove_n(1));
        }
    }
    co.splice(&mut ca.truncate());
    co.splice(&mut cb.truncate());
    co.finish()
}

#[test]
fn merge_sort() {
    const LMAX: usize = 100;
    let mut l = mklist((LMAX / 2..LMAX).rev());
    let mut second = mklist(0..LMAX / 2);
    l.append(&mut second);

    let mut run_len = 1;
    while run_len < l.len() {
        let mut tail = l;
        {
            let mut cl = List::new().cursor();

            while !tail.is_empty() {
                let a = tail;
                let mut ca = a.cursor();
                let b = ca.split(run_len);
                let a = ca.finish();
                let mut cb = b.cursor();
                tail = cb.split(run_len);
                let b = cb.finish();
                cl.splice(&mut merge(a, b));
            }
            l = cl.finish();
        }
        run_len *= 2;
    }

    let want: Vec<usize> = (0..LMAX).collect();
    assert_same(&l, &want);
}
