use toolkit::collection::deque::{Deque, DequeError};

fn contents<const L: usize>(d: &Deque<u32, L>) -> Vec<u32> {
    let mut it = d.into_iter();
    let mut out = Vec::new();
    while let Some(x) = it.next() {
        out.push(x);
    }
    out
}

#[test]
fn capacity_invariant_over_mixed_operations() {
    let mut d = Deque::<u32, 4>::default();
    let mut n: u32 = 0;
    for step in 0..40u32 {
        match step % 5 {
            0 | 1 => {
                let _ = d.push_back(n);
            }
            2 => {
                let _ = d.push_front(n);
            }
            3 => {
                d.pop_front();
            }
            _ => {
                if step % 3 == 0 {
                    d.pop_back();
                }
            }
        }
        n += 1;
        assert!(d.len() <= d.capacity());
        assert_eq!(d.len() == 4, d.is_full());
        assert_eq!(d.len() == 0, d.is_empty());
    }
}

#[test]
fn push_back_then_pop_front_keeps_order() {
    let mut d = Deque::<u32, 6>::default();
    for x in [10, 20, 30, 40, 50] {
        assert_eq!(d.push_back(x), Ok(()));
    }
    let mut out = Vec::new();
    while let Some(x) = d.pop_front() {
        out.push(x);
    }
    assert_eq!(out, vec![10, 20, 30, 40, 50]);
}

#[test]
fn push_front_then_pop_front_reverses() {
    let mut d = Deque::<u32, 6>::default();
    for x in [10, 20, 30, 40, 50] {
        assert_eq!(d.push_front(x), Ok(()));
    }
    let mut out = Vec::new();
    while let Some(x) = d.pop_front() {
        out.push(x);
    }
    assert_eq!(out, vec![50, 40, 30, 20, 10]);
}

#[test]
fn equal_contents_at_different_rotations_compare_equal() {
    let mut a = Deque::<u32, 5>::default();
    let mut b = Deque::<u32, 5>::default();
    for x in [1, 2, 3] {
        let _ = a.push_back(x);
    }
    for x in [9, 9, 9, 9] {
        let _ = b.push_back(x);
    }
    for _ in 0..4 {
        b.pop_front();
    }
    for x in [2, 3] {
        let _ = b.push_back(x);
    }
    let _ = b.push_front(1);
    assert_ne!(a.get_front(), b.get_front());
    assert_eq!(a, b);
    b.pop_back();
    assert_ne!(a, b);
}

#[test]
fn one_short_of_full_becomes_full_in_one_push() {
    let mut d = Deque::<u32, 5>::default();
    for x in 0..4 {
        assert_eq!(d.push_back(x), Ok(()));
    }
    assert!(!d.is_full());
    assert_eq!(d.push_front(100), Ok(()));
    assert!(d.is_full());
    assert_eq!(d.len(), 5);

    let front = d.get_front();
    let back = d.get_back();
    assert_eq!(d.push_back(7), Err(DequeError::Fatal));
    assert_eq!(d.push_front(7), Err(DequeError::Fatal));
    assert_eq!(d.len(), 5);
    assert_eq!(d.get_front(), front);
    assert_eq!(d.get_back(), back);
    assert_eq!(contents(&d), vec![100, 0, 1, 2, 3]);
}

#[test]
fn iterator_yields_what_pop_front_yields() {
    let mut d = Deque::<u32, 7>::default();
    for x in 0..5 {
        let _ = d.push_back(x);
    }
    for _ in 0..3 {
        d.pop_front();
    }
    for x in 5..9 {
        let _ = d.push_back(x);
    }
    let _ = d.push_front(77);

    let mut it = d.into_iter();
    let mut copy = d;
    for _ in 0..(d.len() + 2) {
        assert_eq!(it.next(), copy.pop_front());
    }
    assert_eq!(it.next(), None);
    assert_eq!(copy.pop_front(), None);
}

#[test]
fn double_ended_walk_meets_once() {
    let mut d = Deque::<u32, 5>::default();
    for x in [1, 2, 3, 4, 5] {
        let _ = d.push_back(x);
    }
    let k = d.len();
    for m in 0..=k {
        let mut it = d.into_iter();
        let mut seen = Vec::new();
        for _ in 0..m {
            seen.push(it.next().unwrap());
        }
        let mut back = Vec::new();
        for _ in 0..(k - m) {
            back.push(it.next_back().unwrap());
        }
        assert_eq!(it.size_hint(), (0, Some(0)));
        assert_eq!(it.next(), None);
        assert_eq!(it.next_back(), None);
        back.reverse();
        seen.extend(back);
        assert_eq!(seen, vec![1, 2, 3, 4, 5]);
    }
}

#[test]
fn size_hint_counts_down_by_one() {
    let mut d = Deque::<u32, 4>::default();
    for x in 0..4 {
        let _ = d.push_back(x);
    }
    let mut it = d.into_iter();
    assert_eq!(it.size_hint(), (4, Some(4)));
    it.next();
    assert_eq!(it.size_hint(), (3, Some(3)));
    it.next_back();
    assert_eq!(it.size_hint(), (2, Some(2)));
    it.next();
    it.next();
    assert_eq!(it.size_hint(), (0, Some(0)));
}

#[test]
fn overwrite_keeps_the_newest_items() {
    let mut d = Deque::<u32, 4>::default();
    for x in 0..7 {
        d.push_overwrite(x);
    }
    assert_eq!(d.len(), 4);
    assert_eq!(contents(&d), vec![3, 4, 5, 6]);
}

#[test]
fn thirteen_slot_scenario() {
    let mut d = Deque::<u32, 13>::default();
    for x in 0..13 {
        assert_eq!(d.push_back(x), Ok(()));
    }
    assert_eq!(d.len(), 13);
    for x in 0..8 {
        assert_eq!(d.pop_front(), Some(x));
    }
    assert_eq!(d.len(), 5);
    for x in 100..108 {
        assert_eq!(d.push_back(x), Ok(()));
    }
    let got = contents(&d);
    assert_eq!(got.len(), 13);
    assert_eq!(got, vec![8, 9, 10, 11, 12, 100, 101, 102, 103, 104, 105, 106, 107]);
}
