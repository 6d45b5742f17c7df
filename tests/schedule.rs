use pluto::schedule::next_auto_auction_at;

#[test]
fn weekly_auction_opens_at_seven_pacific() {
    // 2024-01-01 07:00 PST, then 2024-01-08 07:00 PST.
    assert_eq!(next_auto_auction_at(1704121200), Some(1704726000));
    // Across the start of daylight saving time: 2024-03-12 07:00 PDT.
    assert_eq!(next_auto_auction_at(1709650800), Some(1710252000));
    // A late-evening start moves to the local date a week on.
    assert_eq!(next_auto_auction_at(1704160800), Some(1704726000));
}
