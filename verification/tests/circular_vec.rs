use circular_vec::{CircularVec, CircularVecError};

fn numbers() -> CircularVec<u64> {
    CircularVec::from_iter([50, 60, 70, 80].to_vec().into_iter()).unwrap()
}

#[test]
fn loop_through() {
    let mut cv: CircularVec<u64> =
        CircularVec::from_iter([50, 60, 70, 80].to_vec().into_iter()).unwrap();
    assert_eq!(cv.next(), &50);
    assert_eq!(cv.next(), &60);
    assert_eq!(cv.next(), &70);
    assert_eq!(cv.next(), &80);
    assert_eq!(cv.next(), &50);

    assert_eq!(cv[0], 50);
}

#[test]
fn loop_through_string() {
    let mut cv: CircularVec<String> =
        CircularVec::from_iter(["hello".to_string(), "world".to_string()].to_vec().into_iter())
            .unwrap();

    assert_eq!(cv.next(), "hello");
    assert_eq!(cv.next(), "world");
    assert_eq!(cv.next(), "hello");
    assert_eq!(cv.next(), "world");
    assert_eq!(cv.next(), "hello");
    assert_eq!(cv.next(), "world");

    assert_eq!(cv[0], "hello");
}

#[test]
fn skip_two_then_read() {
    let mut cv = numbers();
    cv.skip(2);
    assert_eq!(cv.cursor(), 2);
    assert_eq!(cv.next(), &70);
    assert_eq!(cv.cursor(), 3);
}

#[test]
fn new_keeps_order_and_starts_at_first() {
    let mut cv = CircularVec::new(vec![7u8, 8, 9]).unwrap();
    assert_eq!(cv.len(), 3);
    assert_eq!(cv.cursor(), 0);
    assert_eq!(cv[0], 7);
    assert_eq!(cv[1], 8);
    assert_eq!(cv[2], 9);
    assert_eq!(cv.next(), &7);
}

#[test]
fn new_refuses_empty() {
    let built = CircularVec::<u64>::new(Vec::new());
    assert_eq!(built.err(), Some(CircularVecError::InvalidArgument));
}

#[test]
fn from_iter_refuses_empty() {
    let built = CircularVec::<String>::from_iter(Vec::new().into_iter());
    assert_eq!(built.err(), Some(CircularVecError::InvalidArgument));
}

#[test]
fn from_iter_takes_any_finite_iterator() {
    let mut cv = CircularVec::from_iter((1u32..=3).map(|x| x * 10)).unwrap();
    assert_eq!(cv.len(), 3);
    assert_eq!(cv.next(), &10);
    assert_eq!(cv.next(), &20);
    assert_eq!(cv.next(), &30);
    assert_eq!(cv.next(), &10);
}

#[test]
fn single_element_reads_itself() {
    let mut cv = CircularVec::new(vec!['x']).unwrap();
    for _ in 0..5 {
        assert_eq!(cv.cursor(), 0);
        assert_eq!(cv.next(), &'x');
    }
    cv.skip(3);
    assert_eq!(cv.cursor(), 0);
    assert_eq!(cv.next_mut(), &mut 'x');
    assert_eq!(cv.cursor(), 0);
}

#[test]
fn ith_read_is_element_i_mod_n() {
    let items: Vec<u64> = vec![50, 60, 70, 80, 90];
    let mut cv = CircularVec::new(items.clone()).unwrap();
    for i in 0..23usize {
        assert_eq!(cv.cursor(), i % 5);
        assert_eq!(*cv.next(), items[i % 5]);
    }
}

#[test]
fn cursor_stays_in_bounds() {
    let mut cv = CircularVec::new(vec![1u8, 2, 3]).unwrap();
    let skips: [usize; 8] = [0, 1, 2, 3, 4, 7, 1000, usize::MAX];
    for (round, n) in skips.iter().enumerate() {
        cv.skip(*n);
        assert!(cv.cursor() < cv.len());
        cv.next();
        assert!(cv.cursor() < cv.len());
        if round % 2 == 0 {
            *cv.next_mut() += 1;
            assert!(cv.cursor() < cv.len());
        }
        assert_eq!(cv.len(), 3);
    }
}

#[test]
fn skip_moves_cursor_modulo_len() {
    let mut cv = numbers();
    cv.skip(0);
    assert_eq!(cv.cursor(), 0);
    cv.skip(3);
    assert_eq!(cv.cursor(), 3);
    cv.skip(1);
    assert_eq!(cv.cursor(), 0);
    cv.skip(4);
    assert_eq!(cv.cursor(), 0);
    cv.skip(9);
    assert_eq!(cv.cursor(), 1);
    cv.skip(3);
    assert_eq!(cv.cursor(), 0);
    cv.skip(6);
    assert_eq!(cv.cursor(), 2);
    assert_eq!(cv.next(), &70);
}

#[test]
fn skip_zero_changes_nothing() {
    let mut cv = numbers();
    cv.next();
    cv.skip(0);
    assert_eq!(cv.cursor(), 1);
    assert_eq!(cv.next(), &60);
}

#[test]
fn skip_by_largest_count() {
    // usize::MAX is 3 modulo 4 and 0 modulo 3 and modulo 5, on 32 and on 64 bits.
    let mut four = numbers();
    four.skip(2);
    four.skip(usize::MAX);
    assert_eq!(four.cursor(), 1);
    assert_eq!(four.next(), &60);

    let mut three = CircularVec::new(vec![1u8, 2, 3]).unwrap();
    three.skip(2);
    three.skip(usize::MAX);
    assert_eq!(three.cursor(), 2);

    let mut five = CircularVec::new(vec![1u8, 2, 3, 4, 5]).unwrap();
    five.skip(4);
    five.skip(usize::MAX);
    assert_eq!(five.cursor(), 4);
    assert_eq!(five.next(), &5);
}

#[test]
fn skip_equals_repeated_reads() {
    for start in 0..4usize {
        for n in 0..11usize {
            let mut skipped = numbers();
            let mut stepped = numbers();
            skipped.skip(start);
            stepped.skip(start);

            skipped.skip(n);
            let by_skip = *skipped.next();

            let mut last = *stepped.next();
            for _ in 0..n {
                last = *stepped.next();
            }

            assert_eq!(by_skip, last);
            assert_eq!(skipped.cursor(), stepped.cursor());
        }
    }
}

#[test]
fn index_ignores_cursor() {
    let mut cv = numbers();
    let expected = [50u64, 60, 70, 80];
    for round in 0..9usize {
        for (i, e) in expected.iter().enumerate() {
            assert_eq!(cv[i], *e);
            assert_eq!(cv.get(i), Ok(e));
        }
        assert_eq!(cv[..], expected);
        cv.next();
        cv.skip(round);
    }
}

#[test]
fn index_by_range() {
    let cv = numbers();
    assert_eq!(cv[1..3], [60, 70]);
    assert_eq!(cv[..2], [50, 60]);
    assert_eq!(cv[2..], [70, 80]);
    assert_eq!(cv[1..=2], [60, 70]);
    assert_eq!(cv[4..4], []);
}

#[test]
fn get_in_and_out_of_range() {
    let mut cv = numbers();
    cv.skip(3);
    assert_eq!(cv.get(0), Ok(&50));
    assert_eq!(cv.get(3), Ok(&80));
    assert_eq!(cv.get(4), Err(CircularVecError::IndexOutOfRange));
    assert_eq!(cv.get(usize::MAX), Err(CircularVecError::IndexOutOfRange));
    assert_eq!(cv.cursor(), 3);
}

#[test]
fn get_range_in_and_out_of_range() {
    let mut cv = numbers();
    cv.next();
    assert_eq!(cv.get_range(0..4), Ok(&[50u64, 60, 70, 80][..]));
    assert_eq!(cv.get_range(1..3), Ok(&[60u64, 70][..]));
    assert_eq!(cv.get_range(2..2), Ok(&[][..]));
    assert_eq!(cv.get_range(4..4), Ok(&[][..]));
    assert_eq!(cv.get_range(3..5), Err(CircularVecError::IndexOutOfRange));
    assert_eq!(cv.get_range(5..5), Err(CircularVecError::IndexOutOfRange));
    assert_eq!(cv.get_range(3..2), Err(CircularVecError::IndexOutOfRange));
    assert_eq!(cv.cursor(), 1);
}

#[test]
fn next_mut_returns_current_and_advances() {
    let mut cv = numbers();
    assert_eq!(cv.next_mut(), &mut 50);
    assert_eq!(cv.cursor(), 1);
    assert_eq!(cv.next_mut(), &mut 60);
    assert_eq!(cv.next(), &70);
    assert_eq!(cv.next_mut(), &mut 80);
    assert_eq!(cv.cursor(), 0);
    assert_eq!(cv[..], [50, 60, 70, 80]);
}

#[test]
fn write_through_next_mut_persists() {
    let mut cv = numbers();
    cv.next();
    *cv.next_mut() = 61;
    assert_eq!(cv.cursor(), 2);
    assert_eq!(cv.len(), 4);
    assert_eq!(cv[1], 61);
    assert_eq!(cv.get(1), Ok(&61));
    assert_eq!(cv[..], [50, 61, 70, 80]);

    assert_eq!(cv.next(), &70);
    assert_eq!(cv.next(), &80);
    assert_eq!(cv.next(), &50);
    assert_eq!(cv.next(), &61);

    cv.skip(7);
    assert_eq!(cv.next(), &61);
}

#[test]
fn write_through_next_mut_string() {
    let mut cv = CircularVec::new(vec!["hello".to_string(), "world".to_string()]).unwrap();
    cv.next_mut().push_str(", there");
    assert_eq!(cv.next(), "world");
    assert_eq!(cv.next(), "hello, there");
    assert_eq!(cv[0], "hello, there");
    assert_eq!(cv[1], "world");
}
