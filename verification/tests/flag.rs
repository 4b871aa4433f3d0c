use cuttle::flag::Flag;

#[test]
fn set_and_unset_positions() {
    let mut flag = Flag::default();
    flag.set(0);
    flag.set(5);
    flag.set(31);
    assert_eq!(flag.0, 0b1 | 0b100000 | (1 << 31));
    assert_eq!(flag.positions(), vec![0, 5, 31]);
    flag.unset(5);
    assert_eq!(flag.positions(), vec![0, 31]);
    assert_eq!(flag.len(), 2);
    assert_eq!(flag.minimum(), Some(0));
}

#[test]
fn unset_undoes_set_on_a_fresh_position() {
    let mut flag = Flag(0b1010);
    flag.set(2);
    flag.unset(2);
    assert_eq!(flag.0, 0b1010);
}

#[test]
fn iterator_yields_positions_lowest_first() {
    let flag = Flag(0b1001_0110);
    let mut it = flag.into_iter();
    let mut seen = Vec::new();
    while let Some(i) = it.next() {
        seen.push(i);
    }
    assert_eq!(seen, flag.positions());
    assert_eq!(seen, vec![1, 2, 4, 7]);
    assert_eq!(it.next(), None);
}

#[test]
fn empty_flag() {
    let flag = Flag(0);
    assert!(flag.is_empty());
    assert_eq!(flag.minimum(), None);
    assert_eq!(flag.len(), 0);
    assert_eq!(flag.into_iter().next(), None);
}

#[test]
fn setting_positions_then_iterating_sorts_and_dedups() {
    let mut flag = Flag::default();
    for p in [9u8, 3, 9, 0, 31, 3] {
        flag.set(p);
    }
    let mut it = flag.into_iter();
    let mut seen = Vec::new();
    while let Some(i) = it.next() {
        seen.push(i);
    }
    assert_eq!(seen, vec![0, 3, 9, 31]);
}
