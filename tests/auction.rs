use pluto::auction::{auction_bid, new_auction, settle_auction, settle_expired_auctions, AuctionSettlement, BidOutcome, BidRejection};
use pluto::ledger::TransferHandler;
use pluto::models::{AuctionWinner, CurrencyId, TransferType, UserId, AUCTION_EXPIRATION};

fn fresh_auction(bid_min: i64, offer_amt: i64) -> AuctionWinner {
    AuctionWinner {
        auction_id: 3,
        created_at: 0,
        auctioneer: None,
        offer_ty: CurrencyId::gen(),
        offer_amt,
        bid_ty: CurrencyId::pc(),
        bid_min,
        finished: false,
        last_change: 0,
        winner_id: None,
        winner_bid: None,
        winner_bid_at: None,
        last_timer_bump: 1000,
        max_bid_user: None,
        max_bid_amt: None,
    }
}

fn with_winner(mut a: AuctionWinner, user: u64, bid: i64, bumped: i64) -> AuctionWinner {
    a.winner_id = Some(UserId(user));
    a.winner_bid = Some(bid);
    a.last_timer_bump = bumped;
    a
}

fn handler(balances: &[(u64, i64)]) -> TransferHandler {
    let mut h = TransferHandler::new();
    for (u, b) in balances {
        h.add_snapshot(UserId(*u), CurrencyId::pc(), Some(*b));
        h.add_snapshot(UserId(*u), CurrencyId::gen(), Some(0));
    }
    h
}

fn accepted(o: BidOutcome) -> pluto::auction::BidAccepted {
    match o {
        BidOutcome::Accepted(b) => b,
        BidOutcome::Rejected(r) => panic!("bid rejected: {}", r.message()),
    }
}

fn rejected(o: BidOutcome) -> BidRejection {
    match o {
        BidOutcome::Accepted(_) => panic!("bid accepted"),
        BidOutcome::Rejected(r) => r,
    }
}

#[test]
fn outbid_refunds_previous_winner() {
    let pc = CurrencyId::pc();
    let a = fresh_auction(1, 10);
    let mut h = handler(&[(1, 100), (2, 100)]);
    let first = accepted(auction_bid(&mut h, &a, UserId(1), 5, false, 1100));
    assert_eq!((first.winner, first.price), (UserId(1), 5));
    assert!(first.refund.is_none());
    assert_eq!(first.reserve.as_ref().unwrap().quantity, 5);
    assert_eq!(first.last_timer_bump, 1100);
    assert_eq!(h.balance(UserId(1), &pc), 95);

    let a = with_winner(a, 1, 5, 1100);
    let mut h = handler(&[(1, 95), (2, 100)]);
    assert_eq!(rejected(auction_bid(&mut h, &a, UserId(2), 5, false, 1200)), BidRejection::TooLow);
    assert_eq!(h.balance(UserId(2), &pc), 100);

    let second = accepted(auction_bid(&mut h, &a, UserId(2), 6, false, 1200));
    assert_eq!((second.winner, second.price), (UserId(2), 6));
    let refund = second.refund.unwrap();
    assert_eq!((refund.to_user, refund.quantity, refund.transfer_ty), (Some(UserId(1)), 5, TransferType::AuctionRefund));
    let reserve = second.reserve.unwrap();
    assert_eq!((reserve.from_user, reserve.quantity, reserve.transfer_ty), (Some(UserId(2)), 6, TransferType::AuctionReserve));
    assert_eq!(h.balance(UserId(1), &pc), 100);
    assert_eq!(h.balance(UserId(2), &pc), 94);
    assert!(second.winner_changed);
    assert_eq!(second.last_timer_bump, 1200);
}

#[test]
fn max_bid_defends_against_lower_plain_bid() {
    let pc = CurrencyId::pc();
    let a = fresh_auction(1, 10);
    let mut h = handler(&[(1, 100), (2, 100)]);
    let first = accepted(auction_bid(&mut h, &a, UserId(1), 20, true, 1100));
    assert_eq!((first.winner, first.price, first.max_bid), (UserId(1), 1, Some((UserId(1), 20))));

    let mut a = with_winner(a, 1, 1, 1100);
    a.max_bid_user = Some(UserId(1));
    a.max_bid_amt = Some(20);
    let mut h = handler(&[(1, 99), (2, 100)]);
    let second = accepted(auction_bid(&mut h, &a, UserId(2), 10, false, 1300));
    assert_eq!((second.winner, second.price), (UserId(1), 11));
    assert_eq!(second.max_bid, Some((UserId(1), 20)));
    assert!(!second.winner_changed);
    assert_eq!(second.last_timer_bump, 1100);
    assert_eq!(h.balance(UserId(1), &pc), 89);
    assert_eq!(h.balance(UserId(2), &pc), 100);

    // A bid equal to the ceiling leaves the holder in front at the ceiling.
    let mut h = handler(&[(1, 99), (2, 100)]);
    let tie = accepted(auction_bid(&mut h, &a, UserId(2), 20, false, 1300));
    assert_eq!((tie.winner, tie.price), (UserId(1), 20));

    let mut h = handler(&[(1, 99), (2, 100)]);
    let third = accepted(auction_bid(&mut h, &a, UserId(2), 25, false, 1400));
    assert_eq!((third.winner, third.price, third.max_bid), (UserId(2), 25, None));
    assert!(third.winner_changed);
    assert_eq!(third.last_timer_bump, 1400);
    assert_eq!(h.balance(UserId(1), &pc), 100);
    assert_eq!(h.balance(UserId(2), &pc), 75);
}

#[test]
fn raising_own_max_bid_moves_nothing() {
    let mut a = with_winner(fresh_auction(1, 10), 1, 4, 1100);
    a.max_bid_user = Some(UserId(1));
    a.max_bid_amt = Some(10);
    let mut h = handler(&[(1, 50)]);
    let b = accepted(auction_bid(&mut h, &a, UserId(1), 30, true, 1500));
    assert_eq!((b.winner, b.price, b.max_bid), (UserId(1), 4, Some((UserId(1), 30))));
    assert!(b.refund.is_none() && b.reserve.is_none());
    assert_eq!(b.last_timer_bump, 1100);
    assert_eq!(h.balance(UserId(1), &CurrencyId::pc()), 50);
}

#[test]
fn bid_rejections() {
    let a = fresh_auction(10, 10);
    let mut h = handler(&[(1, 8), (2, 100)]);
    assert_eq!(rejected(auction_bid(&mut h, &a, UserId(2), -1, false, 1100)), BidRejection::NegativeAmount);
    assert_eq!(rejected(auction_bid(&mut h, &a, UserId(2), 9, false, 1100)), BidRejection::TooLow);
    assert_eq!(rejected(auction_bid(&mut h, &a, UserId(1), 10, false, 1100)), BidRejection::NotEnoughFunds);
    let late = 1000 + AUCTION_EXPIRATION + 1;
    assert_eq!(rejected(auction_bid(&mut h, &a, UserId(2), 50, false, late)), BidRejection::Ended);
    assert_eq!(h.balance(UserId(2), &CurrencyId::pc()), 100);
}

#[test]
fn settle_without_bids_moves_nothing() {
    let a = fresh_auction(1, 10);
    let mut h = handler(&[]);
    assert!(matches!(settle_auction(&mut h, &a, 1000 + AUCTION_EXPIRATION), AuctionSettlement::NotDue));
    match settle_auction(&mut h, &a, 1001 + AUCTION_EXPIRATION) {
        AuctionSettlement::Settled(s) => {
            assert_eq!(s.auction_id, 3);
            assert!(s.winner.is_none());
            assert!(s.payout.is_none());
            assert_eq!(s.amount, 0);
        },
        _ => panic!("expected a settlement"),
    }
}

#[test]
fn settle_pays_the_winner() {
    let a = with_winner(fresh_auction(1, 10), 2, 6, 1000);
    let mut h = handler(&[(2, 94)]);
    match settle_auction(&mut h, &a, 1001 + AUCTION_EXPIRATION) {
        AuctionSettlement::Settled(s) => {
            assert_eq!(s.winner, Some(UserId(2)));
            assert_eq!(s.amount, 10);
            let p = s.payout.unwrap();
            assert_eq!((p.to_user, p.quantity, p.transfer_ty), (Some(UserId(2)), 10, TransferType::AuctionPayout));
        },
        _ => panic!("expected a settlement"),
    }
    assert_eq!(h.balance(UserId(2), &CurrencyId::gen()), 10);
    assert_eq!(h.balance(UserId(2), &CurrencyId::pc()), 94);
    let mut done = a;
    done.finished = true;
    assert!(matches!(settle_auction(&mut h, &done, 5_000_000), AuctionSettlement::NotDue));
}

#[test]
fn new_auction_needs_positive_amounts() {
    let a = new_auction(9, 50, Some(4), CurrencyId::gen(), 2, CurrencyId::pc(), 10).unwrap();
    assert_eq!((a.auction_id, a.offer_amt, a.bid_min, a.last_timer_bump), (9, 2, 10, 50));
    assert!(a.winner_id.is_none());
    assert!(new_auction(9, 50, None, CurrencyId::gen(), 0, CurrencyId::pc(), 10).is_none());
    assert!(new_auction(9, 50, None, CurrencyId::gen(), 1, CurrencyId::pc(), 0).is_none());
}

#[test]
fn same_winner_reserves_only_the_increase() {
    let pc = CurrencyId::pc();
    let mut a = with_winner(fresh_auction(1, 10), 1, 4, 1100);
    a.max_bid_user = Some(UserId(1));
    a.max_bid_amt = Some(10);
    // The winner raises their own plain bid past their ceiling.
    let mut h = handler(&[(1, i64::MAX - 2)]);
    let b = accepted(auction_bid(&mut h, &a, UserId(1), 12, false, 1500));
    assert_eq!((b.winner, b.price, b.max_bid), (UserId(1), 12, Some((UserId(1), 12))));
    assert!(b.refund.is_none());
    assert_eq!(b.reserve.unwrap().quantity, 8);
    assert_eq!(h.balance(UserId(1), &pc), i64::MAX - 10);
    assert_eq!(b.last_timer_bump, 1100);
}

#[test]
fn scheduler_pass_settles_each_auction() {
    let done = with_winner(fresh_auction(1, 10), 2, 6, 1000);
    let mut overflowing = with_winner(fresh_auction(1, 10), 3, 6, 1000);
    overflowing.auction_id = 4;
    let mut no_bids = fresh_auction(1, 10);
    no_bids.auction_id = 5;
    let mut running = fresh_auction(1, 10);
    running.auction_id = 6;
    running.last_timer_bump = 1000 + AUCTION_EXPIRATION;
    let mut h = TransferHandler::new();
    h.add_snapshot(UserId(2), CurrencyId::gen(), Some(0));
    h.add_snapshot(UserId(3), CurrencyId::gen(), Some(i64::MAX));
    let settled = settle_expired_auctions(&mut h, &vec![done, overflowing, no_bids, running], 1001 + AUCTION_EXPIRATION);
    let got: Vec<(i64, Option<UserId>, i64)> = settled.iter().map(|s| (s.auction_id, s.winner, s.amount)).collect();
    assert_eq!(got, vec![(3, Some(UserId(2)), 10), (5, None, 0)]);
    assert_eq!(h.balance(UserId(2), &CurrencyId::gen()), 10);
    assert_eq!(h.balance(UserId(3), &CurrencyId::gen()), i64::MAX);
}
