use top_map::map::TopMap;
use top_map::offset::{classify, positive, Place};

fn counts<V>(m: &TopMap<V>) -> (usize, usize, usize) {
    (m.len(), m.window_len(), m.overflow_len())
}

fn keys<V>(m: &TopMap<V>) -> Vec<isize> {
    m.iter().into_iter().map(|(key, _)| key).collect()
}

#[test]
fn positive_keeps_what_is_not_negative() {
    assert_eq!(Some(0), positive(0));
    assert_eq!(Some(17), positive(17));
    assert_eq!(Some(isize::MAX as usize), positive(isize::MAX));
    assert_eq!(None, positive(-1));
    assert_eq!(None, positive(isize::MIN));
}

#[test]
fn classify_names_the_three_places() {
    assert_eq!(Place::Inside { offset: 0 }, classify(42, None, 10));
    assert_eq!(Place::Inside { offset: 0 }, classify(100, Some(100), 10));
    assert_eq!(Place::Inside { offset: 9 }, classify(109, Some(100), 10));
    assert_eq!(Place::Overflow, classify(110, Some(100), 10));
    assert_eq!(Place::Below { distance: 1 }, classify(99, Some(100), 10));
    assert_eq!(Place::Below { distance: 200 }, classify(-100, Some(100), 10));
}

#[test]
fn classify_sends_every_key_to_the_overflow_at_width_zero() {
    assert_eq!(Place::Overflow, classify(5, None, 0));
    assert_eq!(Place::Overflow, classify(5, Some(5), 0));
    assert_eq!(Place::Overflow, classify(4, Some(5), 0));
}

#[test]
fn classify_measures_the_widest_distances_exactly() {
    assert_eq!(
        Place::Below { distance: usize::MAX },
        classify(isize::MIN, Some(isize::MAX), 10)
    );
    assert_eq!(Place::Overflow, classify(isize::MAX, Some(isize::MIN), 10));
    assert_eq!(
        Place::Inside { offset: usize::MAX - 1 },
        classify(isize::MAX - 1, Some(isize::MIN), usize::MAX)
    );
    assert_eq!(Place::Overflow, classify(isize::MAX, Some(isize::MIN), usize::MAX));
}

#[test]
fn extreme_keys_live_side_by_side() {
    let mut m = TopMap::new(10);
    assert_eq!(None, m.insert(isize::MAX, 'x'));
    assert_eq!(None, m.insert(isize::MIN, 'n'));
    assert_eq!(None, m.insert(0, 'z'));
    assert_eq!((3, 1, 2), counts(&m));
    assert_eq!(vec![isize::MIN, 0, isize::MAX], keys(&m));
    assert_eq!(Some('n'), m.remove(isize::MIN));
    assert_eq!((2, 1, 1), counts(&m));
    assert_eq!(Some(&'x'), m.get(isize::MAX));
    assert_eq!(Some('z'), m.remove(0));
    assert_eq!(Some('x'), m.remove(isize::MAX));
    assert_eq!((0, 0, 0), counts(&m));
}

#[test]
fn width_zero_keeps_everything_in_the_overflow() {
    let mut m = TopMap::new(0);
    assert_eq!(None, m.insert(5, 'a'));
    assert_eq!(Some('a'), m.insert(5, 'b'));
    assert_eq!(None, m.insert(4, 'c'));
    assert_eq!((2, 0, 2), counts(&m));
    assert_eq!(0, m.window_slots());
    assert_eq!(Some(&'b'), m.get(5));
    assert_eq!(Some('c'), m.remove(4));
    assert_eq!(vec![5], keys(&m));
}

#[test]
fn width_one_holds_the_minimum_alone() {
    let mut m = TopMap::new(1);
    for key in [5, 6, 4, 9] {
        assert_eq!(None, m.insert(key, key));
    }
    assert_eq!((4, 1, 3), counts(&m));
    assert_eq!(Some(4), m.remove(4));
    assert_eq!((3, 1, 2), counts(&m));
    assert_eq!(vec![5, 6, 9], keys(&m));
}

#[test]
fn new_map_is_empty() {
    let m = TopMap::<u8>::new(10);
    assert_eq!((0, 0, 0), counts(&m));
    assert_eq!(10, m.width());
    assert_eq!(10, m.low_mark());
    assert!(m.iter().is_empty());
    assert_eq!(None, m.get(0));
}

#[test]
fn low_mark_is_capped_by_the_width() {
    let m = TopMap::<u8>::with_low_mark(10, 50);
    assert_eq!(10, m.width());
    assert_eq!(10, m.low_mark());
    let m = TopMap::<u8>::with_low_mark(10, 3);
    assert_eq!(3, m.low_mark());
}

#[test]
fn low_mark_delays_the_refill() {
    let pairs: Vec<(isize, isize)> = (0..20).map(|n| (n, n)).collect();
    let mut m = TopMap::with_low_mark(8, 4);
    m.extend(pairs);
    assert_eq!((20, 8, 12), counts(&m));
    for key in 0..3 {
        assert_eq!(Some(key), m.remove(key));
    }
    // Five slots are left: more than the low-water mark.
    assert_eq!((17, 5, 12), counts(&m));
    assert_eq!(Some(3), m.remove(3));
    // Four slots are left, and no overflow key has an offset below four.
    assert_eq!((16, 4, 12), counts(&m));
    assert_eq!(Some(4), m.remove(4));
    // Three slots are left; key 8 has offset three and comes back.
    assert_eq!((15, 4, 11), counts(&m));
    assert_eq!((5..20).collect::<Vec<isize>>(), keys(&m));
}

#[test]
fn key_between_short_window_and_overflow_goes_where_order_demands() {
    let pairs: Vec<(isize, isize)> = (0..20).map(|n| (n * 2, n)).collect();
    let mut m = TopMap::with_low_mark(8, 2);
    m.extend(pairs);
    assert_eq!((20, 4, 16), counts(&m));
    m.shrink_to_fit();
    assert_eq!((20, 1, 19), counts(&m));
    assert_eq!(2, m.window_slots());
    // 1 is below the overflow's minimum 2: it goes to the window.
    assert_eq!(None, m.insert(1, 100));
    assert_eq!((21, 2, 19), counts(&m));
    // 3 is above it: the overflow takes it, although it is within the width.
    assert_eq!(None, m.insert(3, 300));
    assert_eq!((22, 2, 20), counts(&m));
    assert_eq!(Some(&300), m.get(3));
    assert_eq!(Some(300), m.remove(3));
    assert_eq!(Some(1), m.remove(2));
    assert_eq!(Some(&100), m.get(1));
    assert_eq!(keys(&m)[..4], [0, 1, 4, 6]);
}

#[test]
fn shrink_to_fit_is_idle_when_refill_is_eager() {
    let mut m = TopMap::from_pairs(8, (0..20).map(|n| (n, n)).collect());
    assert_eq!((20, 8, 12), counts(&m));
    m.shrink_to_fit();
    assert_eq!((20, 8, 12), counts(&m));
}

#[test]
fn shrink_to_zero_leaves_the_window_empty() {
    let mut m = TopMap::with_low_mark(1, 0);
    m.extend(vec![(5, 'a'), (6, 'b')]);
    assert_eq!((2, 1, 1), counts(&m));
    m.shrink_to_fit();
    assert_eq!((2, 0, 2), counts(&m));
    assert_eq!(Some(&'a'), m.get(5));
    assert_eq!(None, m.insert(7, 'c'));
    assert_eq!((3, 0, 3), counts(&m));
    assert_eq!(None, m.insert(4, 'd'));
    assert_eq!((4, 1, 3), counts(&m));
    assert_eq!(Some('d'), m.remove(4));
    assert_eq!((3, 1, 2), counts(&m));
    assert_eq!(vec![5, 6, 7], keys(&m));
}

#[test]
fn clear_empties_both_stores() {
    let mut m = TopMap::from_pairs(3, (0..10).map(|n| (n, n)).collect());
    assert_eq!((10, 3, 7), counts(&m));
    m.clear();
    assert_eq!((0, 0, 0), counts(&m));
    assert_eq!(3, m.width());
    assert_eq!(None, m.get(0));
    assert_eq!(None, m.insert(77, 77));
    assert_eq!((1, 1, 0), counts(&m));
}

#[test]
fn reserve_changes_nothing() {
    let mut m = TopMap::from_pairs(3, (0..10).map(|n| (n, n)).collect());
    m.reserve(2);
    m.reserve(usize::MAX);
    assert_eq!((10, 3, 7), counts(&m));
    assert_eq!((0..10).collect::<Vec<isize>>(), keys(&m));
    let mut huge = TopMap::<u64>::new(usize::MAX);
    huge.reserve(usize::MAX);
    assert_eq!(None, huge.insert(1, 1));
    assert_eq!(Some(&1), huge.get(1));
}

#[test]
fn extend_lets_the_later_pair_win() {
    let mut m = TopMap::new(4);
    m.extend(vec![(1, 'a'), (9, 'b'), (1, 'c'), (9, 'd'), (-1, 'e')]);
    assert_eq!((3, 2, 1), counts(&m));
    assert_eq!(Some(&'c'), m.get(1));
    assert_eq!(Some(&'d'), m.get(9));
    assert_eq!(Some(&'e'), m.get(-1));
}

#[test]
fn get_mut_writes_through_in_window_and_overflow() {
    let mut m = TopMap::from_pairs(2, vec![(1, 10), (2, 20), (50, 500)]);
    *m.get_mut(2).unwrap() += 1;
    *m.get_mut(50).unwrap() += 1;
    assert!(m.get_mut(3).is_none());
    assert!(m.get_mut(0).is_none());
    assert!(m.get_mut(49).is_none());
    assert_eq!(Some(&21), m.get(2));
    assert_eq!(Some(&501), m.get(50));
    assert_eq!((3, 2, 1), counts(&m));
}

#[test]
fn index_mut_writes_through() {
    let mut m = TopMap::from_pairs(2, vec![(1, 10), (2, 20), (50, 500)]);
    *m.index_mut(1) = 11;
    *m.index_mut(50) = 555;
    assert_eq!(11, m[1]);
    assert_eq!(20, m[2]);
    assert_eq!(555, m[50]);
}

#[test]
fn entry_insert_returns_the_previous_value() {
    let mut m = TopMap::new(4);
    assert_eq!(None, m.entry(10).insert('a'));
    assert_eq!(Some('a'), m.entry(10).insert('b'));
    assert_eq!(None, m.entry(12).insert('c'));
    assert_eq!(None, m.entry(100).insert('d'));
    assert_eq!(Some('d'), m.entry(100).insert('e'));
    assert_eq!(None, m.entry(8).insert('f'));
    assert_eq!(Some('c'), m.entry(12).insert('g'));
    assert_eq!((4, 2, 2), counts(&m));
    assert_eq!(vec![8, 10, 12, 100], keys(&m));
}

#[test]
fn entry_names_the_place_of_its_key() {
    let mut m = TopMap::from_pairs(4, vec![(10, 'a')]);
    assert_eq!(Place::Inside { offset: 2 }, m.entry(12).place);
    assert_eq!(Place::Overflow, m.entry(14).place);
    assert_eq!(Place::Below { distance: 3 }, m.entry(7).place);
    assert_eq!(7, m.entry(7).key);
    assert_eq!((1, 1, 0), counts(&m));
}

#[test]
fn or_insert_keeps_what_is_there() {
    let mut m = TopMap::new(4);
    assert_eq!(1, *m.entry(10).or_insert(1));
    assert_eq!(1, *m.entry(10).or_insert(2));
    *m.entry(10).or_insert(3) += 40;
    assert_eq!(Some(&41), m.get(10));
    assert_eq!(5, *m.entry(13).or_insert(5));
    assert_eq!(6, *m.entry(99).or_insert(6));
    assert_eq!(6, *m.entry(99).or_insert(7));
    assert_eq!(8, *m.entry(-4).or_insert(8));
    *m.entry(-4).or_insert(0) = 9;
    assert_eq!((4, 1, 3), counts(&m));
    assert_eq!(Some(&9), m.get(-4));
    assert_eq!(Some(&41), m.get(10));
    assert_eq!(Some(&5), m.get(13));
    assert_eq!(Some(&6), m.get(99));
}

#[test]
fn or_insert_with_calls_the_factory_only_for_a_new_key() {
    let mut calls = 0;
    let mut m = TopMap::new(4);
    assert_eq!(
        1,
        *m.entry(10).or_insert_with(|| {
            calls += 1;
            1
        })
    );
    assert_eq!(
        1,
        *m.entry(10).or_insert_with(|| {
            calls += 1;
            2
        })
    );
    assert_eq!(
        3,
        *m.entry(500).or_insert_with(|| {
            calls += 1;
            3
        })
    );
    assert_eq!(2, calls);
    assert_eq!((2, 1, 1), counts(&m));
}

#[test]
fn len_counts_window_and_overflow() {
    let mut m = TopMap::new(2);
    assert_eq!(0, m.len());
    m.extend(vec![(1, ()), (2, ()), (3, ()), (10, ())]);
    assert_eq!(4, m.len());
    assert_eq!(2, m.window_len());
    assert_eq!(2, m.overflow_len());
    m.remove(2);
    assert_eq!(3, m.len());
}

#[test]
fn from_pairs_builds_an_eager_map() {
    let m = TopMap::from_pairs(3, vec![(5, 'a'), (4, 'b'), (5, 'c')]);
    assert_eq!(3, m.width());
    assert_eq!(3, m.low_mark());
    assert_eq!((2, 2, 0), counts(&m));
    assert_eq!(Some(&'c'), m.get(5));
}

#[test]
fn iter_mut_lists_in_order_and_writes_through() {
    let mut m = TopMap::from_pairs(4, vec![(10, 1), (11, 2), (13, 3), (40, 4), (20, 5)]);
    assert_eq!(Some(2), m.remove(11));
    let mut seen = Vec::new();
    for (key, value) in m.iter_mut() {
        seen.push((key, *value));
        *value += 100;
    }
    assert_eq!(vec![(10, 1), (13, 3), (20, 5), (40, 4)], seen);
    assert_eq!((4, 2, 2), counts(&m));
    assert_eq!(Some(&101), m.get(10));
    assert_eq!(Some(&103), m.get(13));
    assert_eq!(Some(&105), m.get(20));
    assert_eq!(Some(&104), m.get(40));
    assert_eq!(None, m.get(11));
}

#[test]
fn iter_mut_of_an_empty_map_is_empty() {
    let mut m = TopMap::<u8>::new(4);
    assert!(m.iter_mut().is_empty());
    let mut m = TopMap::<u8>::new(0);
    m.insert(3, 1);
    for (_, value) in m.iter_mut() {
        *value = 9;
    }
    assert_eq!(Some(&9), m.get(3));
}
