use pluto::power::{is_win, motion_label, Power};

fn whole(n: u64) -> Power {
    Power::from_integer(n).unwrap()
}

#[test]
fn does_win() {
    // Simple majority
    let one = whole(1);
    assert_eq!(is_win(1, 0, &one), true);
    assert_eq!(is_win(1, 1, &one), false);
    assert_eq!(is_win(1, 2, &one), false);
    assert_eq!(is_win(2, 1, &one), true);
    assert_eq!(is_win(i64::MAX, i64::MAX - 1, &one), true);
    assert_eq!(is_win(i64::MAX, i64::MAX, &one), false);

    // Two-thirds supermajority
    let two = whole(2);
    assert_eq!(is_win(2, 1, &two), false);
    assert_eq!(is_win(3, 1, &two), true);
    assert_eq!(is_win(3, 2, &two), false);
    assert_eq!(is_win(i64::MAX, i64::MAX / 2, &two), true); // slightly less than one-half, due to rounding
    assert_eq!(is_win(i64::MAX, i64::MAX / 2 + 1, &two), false);

    // One-third submajority
    let half = Power::new(5, 1).unwrap();
    assert_eq!(is_win(1, 1, &half), true);
    assert_eq!(is_win(2, 3, &half), true);
    assert_eq!(is_win(2, 4, &half), false);
    assert_eq!(is_win(i64::MAX / 2, i64::MAX, &half), false); // slightly less than one-half, due to rounding
    assert_eq!(is_win(i64::MAX / 2 + 1, i64::MAX, &half), true);

    // Extreme cases
    let just_under_third = Power::new(3333333333333333, 16).unwrap();
    assert_eq!(is_win(1, 3, &just_under_third), true); // slighty less than one-third
    let just_over_third = Power::new(33333333333333354, 17).unwrap();
    assert_eq!(is_win(1, 3, &just_over_third), false); // slightly more than one-third
    assert_eq!(is_win(i64::MAX, 1, &whole(i64::MAX as u64)), false);
    assert_eq!(is_win(i64::MAX, 1, &whole(i64::MAX as u64 - 1)), true);
}

#[test]
fn power_rejects_zero_and_wide_scale() {
    assert!(Power::new(0, 0).is_none());
    assert!(Power::new(1, 20).is_none());
    assert!(Power::new(1, 19).is_some());
}

#[test]
fn motion_labels() {
    assert_eq!(motion_label(&whole(1)), "Simple motion");
    assert_eq!(motion_label(&Power::new(10, 1).unwrap()), "Simple motion");
    assert_eq!(motion_label(&whole(2)), "Supermotion");
    assert_eq!(motion_label(&Power::new(5, 1).unwrap()), "Submotion");
}

#[test]
fn power_example_two_thirds() {
    // power 2, 3 against and 7 for: 6 < 7 passes; a fourth no vote makes 8 >= 7.
    let two = whole(2);
    assert!(is_win(7, 3, &two));
    assert!(!is_win(7, 4, &two));
}
