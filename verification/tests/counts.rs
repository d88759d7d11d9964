use top_map::map::TopMap;

const ITEMS: [(isize, &str); 6] =
    [(100, "a1"), (101, "a2"), (200, "b1"), (201, "b2"), (300, "c1"), (301, "c2")];

fn lens<V>(m: &TopMap<V>) -> [usize; 3] {
    [m.len(), m.window_len(), m.overflow_len()]
}

fn listed<V: Copy>(m: &TopMap<V>) -> Vec<(isize, V)> {
    m.iter().into_iter().map(|(key, &value)| (key, value)).collect()
}

fn thousand() -> TopMap<isize> {
    let mut m = TopMap::with_low_mark(128, 64);
    m.extend((0..1000).map(|n| (n as isize, n)).collect());
    m
}

#[test]
fn collect() {
    let mut m = TopMap::<&str>::with_low_mark(10, 5);
    m.extend(ITEMS.to_vec());
    assert_eq!([6, 2, 4], lens(&m));

    let items = listed(&m);

    assert_eq!(&ITEMS[..], &items[..]);
}

#[test]
fn insert() {
    let mut m = TopMap::<&str>::with_low_mark(10, 5);
    assert_eq!(None, m.get(100isize));
    assert_eq!([0, 0, 0], lens(&m));

    assert_eq!(None, m.insert(200, "b1"));
    assert_eq!([1, 1, 0], lens(&m));

    assert_eq!(None, m.insert(201, "b2"));
    assert_eq!([2, 2, 0], lens(&m));

    assert_eq!(None, m.insert(300, "c1"));
    assert_eq!([3, 2, 1], lens(&m));

    assert_eq!(None, m.insert(301, "c2"));
    assert_eq!([4, 2, 2], lens(&m));

    assert_eq!(None, m.insert(100, "a1"));
    assert_eq!([5, 1, 4], lens(&m));

    assert_eq!(None, m.insert(101, "a2"));
    assert_eq!([6, 2, 4], lens(&m));

    let items = listed(&m);

    assert_eq!(&ITEMS[..], &items[..]);
}

#[test]
fn remove() {
    let mut m = TopMap::<&str>::with_low_mark(10, 5);
    m.extend(ITEMS.to_vec());
    assert_eq!(None, m.remove(-1));
    assert_eq!([6, 2, 4], lens(&m));

    assert_eq!(Some("a1"), m.remove(100));
    assert_eq!([5, 1, 4], lens(&m));

    assert_eq!(Some("a2"), m.remove(101));
    assert_eq!([4, 2, 2], lens(&m));

    assert_eq!(Some("c1"), m.remove(300));
    assert_eq!([3, 2, 1], lens(&m));

    assert_eq!(Some("c2"), m.remove(301));
    assert_eq!([2, 2, 0], lens(&m));

    assert_eq!(Some("b1"), m.remove(200));
    assert_eq!([1, 1, 0], lens(&m));

    assert_eq!(Some("b2"), m.remove(201));
    assert_eq!([0, 0, 0], lens(&m));

    let items = listed(&m);

    assert!(items.is_empty());
}

#[test]
fn insert_remove_existing_m1() {
    let mut m = thousand();

    assert_eq!([1000, 128, 872], lens(&m));
    assert_eq!(127, m[127]);

    let index = -1;
    assert_eq!(None, m.insert(index, index));
    assert_eq!([1001, 128, 873], lens(&m));
    assert_eq!(127, m[127]);

    assert_eq!(Some(index), m.remove(index));
    assert_eq!([1000, 127, 873], lens(&m));
    assert_eq!(127, m[127]);

    m.shrink_to_fit();
    assert_eq!([1000, 64, 936], lens(&m));
    assert_eq!(127, m[127]);

    assert_eq!(None, m.insert(index, index));
    assert_eq!([1001, 65, 936], lens(&m));
    assert_eq!(127, m[127]);

    assert_eq!(Some(index), m.remove(index));
    assert_eq!([1000, 64, 936], lens(&m));
    assert_eq!(127, m[127]);
}

#[test]
fn insert_remove_existing_m3() {
    let mut m = thousand();

    assert_eq!([1000, 128, 872], lens(&m));
    assert_eq!(127, m[127]);

    let index = -3;
    assert_eq!(None, m.insert(index, index));
    assert_eq!([1001, 126, 875], lens(&m));
    assert_eq!(127, m[127]);

    assert_eq!(Some(index), m.remove(index));
    assert_eq!([1000, 125, 875], lens(&m));
    assert_eq!(127, m[127]);

    m.shrink_to_fit();
    assert_eq!([1000, 64, 936], lens(&m));
    assert_eq!(127, m[127]);

    assert_eq!(None, m.insert(index, index));
    assert_eq!([1001, 65, 936], lens(&m));
    assert_eq!(127, m[127]);

    assert_eq!(Some(index), m.remove(index));
    assert_eq!([1000, 64, 936], lens(&m));
    assert_eq!(127, m[127]);
}

#[test]
fn insert_remove_existing_m999() {
    let mut m = thousand();

    assert_eq!([1000, 128, 872], lens(&m));
    assert_eq!(127, m[127]);

    let index = -999;
    assert_eq!(None, m.insert(index, index));
    assert_eq!([1001, 1, 1000], lens(&m));
    assert_eq!(127, m[127]);

    assert_eq!(Some(index), m.remove(index));
    assert_eq!([1000, 64, 936], lens(&m));
    assert_eq!(127, m[127]);

    m.shrink_to_fit();
    assert_eq!([1000, 64, 936], lens(&m));
    assert_eq!(127, m[127]);

    assert_eq!(None, m.insert(index, index));
    assert_eq!([1001, 1, 1000], lens(&m));
    assert_eq!(127, m[127]);

    assert_eq!(Some(index), m.remove(index));
    assert_eq!([1000, 64, 936], lens(&m));
    assert_eq!(127, m[127]);
}

#[test]
fn insert_outside_top() {
    let mut map: TopMap<isize> = TopMap::with_low_mark(128, 64);
    assert_eq!(None, map.insert(-63, 93));
    assert_eq!(93, map[-63]);

    assert_eq!(None, map.insert(87, 14));
    assert_eq!(93, map[-63]);
    assert_eq!(14, map[87]);

    assert_eq!(None, map.insert(0, 45));
    assert_eq!(93, map[-63]);
    assert_eq!(14, map[87]);
    assert_eq!(45, map[0]);

    assert_eq!(Some(93), map.remove(-63));
    assert_eq!(None, map.get(-63));
    assert_eq!(14, map[87]);
    assert_eq!(45, map[0]);

    assert_eq!(Some(14), map.insert(87, 14));
    assert_eq!(None, map.get(-63));
    assert_eq!(14, map[87]);
    assert_eq!(45, map[0]);
}
