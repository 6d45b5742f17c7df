use pluto::auction::{auto_auction_due, new_auto_auction};
use pluto::generators::{next_generation, pay_generators, GENERATE_EVERY};
use pluto::ledger::TransferHandler;
use pluto::replay::{fix_transactions, LogRow};
use pluto::models::{CurrencyId, TransferType, UserId};
use pluto::motion::{motion_create, utc_day_start, MotionCreation, MotionRejection, MAX_MOTIONS_PER_DAY};
use pluto::power::Power;

fn loaded(users: &[(u64, i64, i64)]) -> TransferHandler {
    let mut h = TransferHandler::new();
    for (u, pc, gen) in users {
        h.add_snapshot(UserId(*u), CurrencyId::pc(), Some(*pc));
        h.add_snapshot(UserId(*u), CurrencyId::gen(), Some(*gen));
    }
    h
}

#[test]
fn generators_pay_their_holders() {
    let mut h = loaded(&[(1, 10, 3), (2, 0, 0), (3, 5, 7)]);
    let rows = pay_generators(&mut h, &vec![UserId(1), UserId(2), UserId(3)], 99).unwrap();
    assert_eq!(rows.len(), 3);
    assert_eq!(rows[0].quantity, 3);
    assert_eq!(rows[0].transfer_ty, TransferType::Generated);
    assert_eq!(rows[2].to_user, Some(UserId(3)));
    assert_eq!(h.balance(UserId(1), &CurrencyId::pc()), 13);
    assert_eq!(h.balance(UserId(2), &CurrencyId::pc()), 0);
    assert_eq!(h.balance(UserId(3), &CurrencyId::pc()), 12);
    assert_eq!(h.balance(UserId(3), &CurrencyId::gen()), 7);
}

#[test]
fn generation_schedule() {
    assert_eq!(next_generation(1000, 1000 + GENERATE_EVERY - 1), None);
    assert_eq!(next_generation(1000, 1000 + GENERATE_EVERY), Some(1000 + GENERATE_EVERY));
    assert_eq!(next_generation(1000, 1000 + 5 * GENERATE_EVERY), Some(1000 + GENERATE_EVERY));
}

#[test]
fn auto_auction_offers_one_gen() {
    assert!(!auto_auction_due(500, 500));
    assert!(auto_auction_due(500, 501));
    let a = new_auto_auction(8, 1234);
    assert_eq!(a.offer_amt, 1);
    assert_eq!(a.offer_ty.as_str(), "gen");
    assert_eq!(a.bid_ty.as_str(), "pc");
    assert_eq!(a.bid_min, 1);
    assert_eq!(a.last_timer_bump, 1234);
    assert!(a.winner_id.is_none() && !a.finished);
}

#[test]
fn calling_a_motion() {
    let power = Power::from_integer(1).unwrap();
    let mut h = loaded(&[(4, 100, 0)]);
    match motion_create(&mut h, UserId(4), 31, 600, String::from("Buy a boat"), power, 0, 777, Some(5)) {
        MotionCreation::Created(c) => {
            assert_eq!(c.motion.rowid, 31);
            assert_eq!(c.motion.last_result_change, 777);
            assert_eq!((c.first_vote.user, c.first_vote.direction, c.first_vote.amount), (UserId(4), true, 1));
            assert_eq!(c.transfer.quantity, 40);
            assert_eq!(c.transfer.transfer_ty, TransferType::MotionCreate);
            assert_eq!(c.transfer.to_votes, Some(1));
        },
        MotionCreation::Rejected(r) => panic!("{}", r.message()),
    }
    assert_eq!(h.balance(UserId(4), &CurrencyId::pc()), 60);
}

#[test]
fn motion_rejections() {
    let power = Power::from_integer(2).unwrap();
    let mut h = loaded(&[(4, 39, 0), (5, 100, 0)]);
    let long: String = std::iter::repeat('x').take(1001).collect();
    let r = |o: MotionCreation| match o {
        MotionCreation::Rejected(r) => r,
        MotionCreation::Created(_) => panic!("created"),
    };
    assert_eq!(r(motion_create(&mut h, UserId(5), 1, 1, long, power, 0, 0, None)), MotionRejection::TooLong);
    assert_eq!(r(motion_create(&mut h, UserId(4), 1, 1, String::from("a"), power, 0, 0, None)), MotionRejection::NotEnoughCapital);
    assert_eq!(
        r(motion_create(&mut h, UserId(5), 1, 1, String::from("a"), power, MAX_MOTIONS_PER_DAY, 0, None)),
        MotionRejection::TooManyToday
    );
    assert_eq!(h.balance(UserId(5), &CurrencyId::pc()), 100);
}

#[test]
fn day_start() {
    assert_eq!(utc_day_start(86400 * 3 + 5), 86400 * 3);
    assert_eq!(utc_day_start(86400 * 3), 86400 * 3);
    assert_eq!(utc_day_start(-1), -86400);
}

fn row(from: Option<u64>, to: Option<u64>, q: i64) -> LogRow {
    LogRow {
        rowid: 0,
        ty: CurrencyId::pc(),
        from_user: from.map(UserId),
        quantity: q,
        to_user: to.map(UserId),
        from_balance: None,
        to_balance: None,
        transfer_ty: TransferType::Give,
    }
}

#[test]
fn replaying_the_log_recomputes_snapshots() {
    let rows = vec![row(None, Some(1), 10), row(Some(1), Some(2), 4), row(Some(2), None, 1)];
    assert_eq!(
        fix_transactions(&rows),
        Some(vec![(None, Some(10)), (Some(6), Some(4)), (Some(3), None)])
    );
    let bad = vec![row(None, Some(1), 3), row(Some(1), Some(2), 4)];
    assert_eq!(fix_transactions(&bad), None);
    assert_eq!(fix_transactions(&vec![]), Some(vec![]));
}
