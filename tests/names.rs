use pluto::models::{AuctionWinner, CurrencyId, UserId};
use pluto::names::name_of;

#[test]
fn known_users_have_names() {
    assert_eq!(name_of(UserId(165858230327574528)), "Shelvacu");
    assert_eq!(name_of(UserId(2)), "Dos");
}

#[test]
fn unknown_users_show_their_id() {
    assert_eq!(name_of(UserId(42)), "42");
    assert_eq!(UserId(42).to_string(), "42");
}

#[test]
fn user_id_conversions() {
    assert_eq!(UserId::try_from_i64(-1), None);
    assert_eq!(UserId::try_from_i64(9), Some(UserId(9)));
    assert_eq!(UserId::try_from_u64(u64::MAX), None);
    assert_eq!(UserId::try_from_u64(i64::MAX as u64), Some(UserId(i64::MAX as u64)));
    assert_eq!(UserId(7).into_i64(), 7);
    assert_eq!(UserId(7).into_u64(), 7);
}

#[test]
fn auctioneer_names() {
    let mut a = AuctionWinner {
        auction_id: 572,
        created_at: 0,
        auctioneer: None,
        offer_ty: CurrencyId::gen(),
        offer_amt: 1,
        bid_ty: CurrencyId::pc(),
        bid_min: 1,
        finished: false,
        last_change: 0,
        winner_id: None,
        winner_bid: None,
        winner_bid_at: None,
        last_timer_bump: 0,
        max_bid_user: None,
        max_bid_amt: None,
    };
    assert_eq!(a.auctioneer_name(), "The CONsortium");
    a.auctioneer = Some(1);
    assert_eq!(a.auctioneer_name(), "PitOfFire");
    assert_eq!(a.damm(), "5724");
    assert_eq!(a.current_min_bid(), 1);
    a.winner_id = Some(UserId(3));
    a.winner_bid = Some(8);
    assert_eq!(a.current_min_bid(), 9);
    assert_eq!(a.winner(), Some((UserId(3), 8)));
}
