use fortune_rotation::record::{Fortune, FortuneStore};
use fortune_rotation::selector::RotationSelector;

fn store_of(n: usize) -> FortuneStore {
    let records: Vec<Fortune> = (0..n)
        .map(|i| Fortune {
            fortune: format!("fortune {}", i),
            attribution: format!("author {}", i),
            work: None,
            character_attribution: None,
        })
        .collect();
    FortuneStore::new(records).unwrap()
}

const SECOND: u128 = 1_000_000_000;

#[test]
fn zero_slice_is_refused() {
    assert!(RotationSelector::new(store_of(2), 0).is_none());
    assert!(RotationSelector::new(store_of(2), 1).is_some());
}

#[test]
fn same_slice_serves_same_record() {
    let mut s = RotationSelector::new(store_of(50), 5).unwrap();
    let first = s.current_at(SECOND).clone();
    let index = s.selected();
    assert!(index < 50);
    assert_eq!(first.fortune, format!("fortune {}", index));
    for t in 1..50u128 {
        assert_eq!(*s.current_at(SECOND + t * 10_000_000), first);
        assert_eq!(s.selected(), index);
    }
}

#[test]
fn index_stays_in_range() {
    let mut s = RotationSelector::new(store_of(3), 1).unwrap();
    for k in 0..1000u128 {
        let rec = s.current_at(k * SECOND).clone();
        let i = s.selected();
        assert!(i < 3);
        assert_eq!(rec.fortune, format!("fortune {}", i));
    }
}

#[test]
fn single_record_is_always_served() {
    let mut s = RotationSelector::new(store_of(1), 1).unwrap();
    for k in 0..20u128 {
        assert_eq!(s.current_at(k * SECOND / 2).fortune, "fortune 0");
    }
    assert_eq!(s.current().fortune, "fortune 0");
}

#[test]
fn current_reads_the_clock() {
    let mut s = RotationSelector::new(store_of(4), 3600).unwrap();
    let a = s.current().clone();
    let b = s.current().clone();
    assert_eq!(a, b);
}

#[test]
fn draws_are_roughly_uniform() {
    let n = 4usize;
    let rounds = 40_000u128;
    let mut s = RotationSelector::new(store_of(n), 1).unwrap();
    let mut counts = vec![0u32; n];
    for k in 0..rounds {
        s.current_at(k * SECOND);
        counts[s.selected()] += 1;
    }
    for c in counts {
        assert!((9_000..=11_000).contains(&c), "count {} far from 10000", c);
    }
}
