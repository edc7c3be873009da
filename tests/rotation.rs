use fortune_rotation::rotation::Rotation;

const SECOND: u128 = 1_000_000_000;

#[test]
fn five_second_slices_scenario() {
    let mut r = Rotation::new(5 * SECOND);
    assert!(r.needs_reroll(SECOND));
    assert_eq!(r.observe(SECOND, 2), 2);
    assert_eq!(r.last_slice, Some(0));
    assert!(!r.needs_reroll(3 * SECOND));
    assert_eq!(r.observe(3 * SECOND, 1), 2);
    assert_eq!(r.last_slice, Some(0));
    assert!(r.needs_reroll(6 * SECOND));
    assert_eq!(r.observe(6 * SECOND, 0), 0);
    assert_eq!(r.last_slice, Some(1));
}

#[test]
fn first_call_always_draws() {
    let mut r = Rotation::new(SECOND);
    assert_eq!(r.last_slice, None);
    assert_eq!(r.selected, 0);
    assert!(r.needs_reroll(0));
    assert_eq!(r.observe(0, 4), 4);
    assert_eq!(r.last_slice, Some(0));
}

#[test]
fn same_slice_keeps_index_whatever_is_drawn() {
    let mut r = Rotation::new(10);
    assert_eq!(r.observe(20, 3), 3);
    for t in 20u128..30 {
        assert_eq!(r.observe(t, (t % 7) as usize), 3);
    }
    assert_eq!(r.last_slice, Some(2));
}

#[test]
fn many_calls_in_one_slice_draw_once() {
    let mut r = Rotation::new(100);
    r.observe(50, 1);
    let mut draws = 0;
    for t in [250u128, 299, 200, 275, 210, 250] {
        if r.needs_reroll(t) {
            draws += 1;
        }
        r.observe(t, 5);
    }
    assert_eq!(draws, 1);
    assert_eq!(r.selected, 5);
    assert_eq!(r.last_slice, Some(2));
}

#[test]
fn crossing_moves_last_slice_by_slices_elapsed() {
    let mut r = Rotation::new(5 * SECOND);
    r.observe(SECOND, 0);
    assert_eq!(r.observe(17 * SECOND, 6), 6);
    assert_eq!(r.last_slice, Some(3));
}

#[test]
fn slice_ordinal_truncates() {
    let r = Rotation::new(5 * SECOND);
    assert_eq!(r.slice_at(0), 0);
    assert_eq!(r.slice_at(5 * SECOND - 1), 0);
    assert_eq!(r.slice_at(5 * SECOND), 1);
    assert_eq!(r.slice_at(14 * SECOND), 2);
}
