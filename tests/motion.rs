use pluto::ledger::TransferHandler;
use pluto::models::{CurrencyId, MotionVote, TransferType, UserId, MOTION_EXPIRATION};
use pluto::motion::{settle_motion, tally_votes, vote_common, Motion, MotionWithCount, VoteOutcome, VoteReceipt, VoteRejection};
use pluto::power::Power;

fn motion(power: u64) -> Motion {
    Motion {
        rowid: 12,
        bot_message_id: 77,
        motion_text: String::from("More snacks"),
        motioned_at: 0,
        last_result_change: 500,
        power: Power::from_integer(power).unwrap(),
        announcement_message_id: None,
    }
}

fn handler(user: u64, balance: i64) -> TransferHandler {
    let mut h = TransferHandler::new();
    h.add_snapshot(UserId(user), CurrencyId::pc(), Some(balance));
    h
}

fn accepted(o: VoteOutcome) -> VoteReceipt {
    match o {
        VoteOutcome::Accepted(v) => v,
        VoteOutcome::Rejected(r) => panic!("vote rejected: {}", r.message()),
    }
}

fn rejected(o: VoteOutcome) -> VoteRejection {
    match o {
        VoteOutcome::Accepted(_) => panic!("vote accepted"),
        VoteOutcome::Rejected(r) => r,
    }
}

#[test]
fn first_two_votes_cost_82() {
    let m = motion(1);
    let mut h = handler(4, 100);
    let v = accepted(vote_common(&mut h, Some(&m), None, 1, 0, Some(true), 2, UserId(4), 600, Some(55)));
    assert_eq!(v.cost, 82);
    assert_eq!((v.ordinal_start, v.ordinal_end), (1, 3));
    assert_eq!(v.new_amount, 2);
    assert!(v.new_voter);
    assert_eq!(v.transfer.quantity, 82);
    assert_eq!(v.transfer.transfer_ty, TransferType::MotionVote);
    assert_eq!(v.transfer.to_motion, Some(12));
    assert_eq!(v.transfer.to_votes, Some(2));
    assert_eq!(v.transfer.message_id, Some(55));
    assert_eq!(h.balance(UserId(4), &CurrencyId::pc()), 18);
}

#[test]
fn flipping_the_outcome_resets_the_timer() {
    // power 2 with 3 against and 7 for passes; one more no vote makes it fail.
    let m = motion(2);
    let mut h = handler(4, 1000);
    let v = accepted(vote_common(&mut h, Some(&m), Some((false, 3)), 7, 3, None, 1, UserId(4), 900, None));
    assert_eq!((v.yes_votes, v.no_votes), (7, 4));
    assert!(v.result_flipped);
    assert_eq!(v.last_result_change, 900);
    assert_eq!(v.cost, 46); // the fourth vote
    assert_eq!(v.new_amount, 4);

    let mut h = handler(4, 1000);
    let v = accepted(vote_common(&mut h, Some(&m), None, 7, 3, Some(true), 1, UserId(4), 900, None));
    assert!(!v.result_flipped);
    assert_eq!(v.last_result_change, 500);
}

#[test]
fn vote_rejections() {
    let m = motion(1);
    let mut h = handler(4, 30);
    let u = UserId(4);
    assert_eq!(rejected(vote_common(&mut h, Some(&m), None, 0, 0, Some(true), -1, u, 600, None)), VoteRejection::NegativeCount);
    assert_eq!(rejected(vote_common(&mut h, None, None, 0, 0, Some(true), 1, u, 600, None)), VoteRejection::NotFound);
    assert_eq!(rejected(vote_common(&mut h, Some(&m), Some((true, 1)), 0, 0, Some(false), 1, u, 600, None)), VoteRejection::DirectionChange);
    assert_eq!(rejected(vote_common(&mut h, Some(&m), None, 0, 0, None, 1, u, 600, None)), VoteRejection::NoDirection);
    assert_eq!(rejected(vote_common(&mut h, Some(&m), None, 0, 0, Some(true), 1, u, 500 + MOTION_EXPIRATION, None)), VoteRejection::Expired);
    assert_eq!(rejected(vote_common(&mut h, Some(&m), None, 0, 0, Some(true), 1, u, 600, None)), VoteRejection::NotEnough);
    assert_eq!(rejected(vote_common(&mut h, Some(&m), Some((true, 5)), 0, 0, None, i64::MAX - 3, u, 600, None)), VoteRejection::Overflow);
    assert_eq!(rejected(vote_common(&mut h, Some(&m), Some((true, 5)), 0, 0, None, 2000, u, 600, None)), VoteRejection::CostOverflow);
    assert_eq!(h.balance(u, &CurrencyId::pc()), 30);
    let mut announced = motion(1);
    announced.announcement_message_id = Some(1);
    assert_eq!(rejected(vote_common(&mut h, Some(&announced), None, 0, 0, Some(true), 1, u, 600, None)), VoteRejection::Expired);
}

#[test]
fn zero_votes_record_a_direction_for_free() {
    let m = motion(1);
    let mut h = handler(4, 0);
    let v = accepted(vote_common(&mut h, Some(&m), None, 0, 0, Some(false), 0, UserId(4), 600, None));
    assert_eq!(v.cost, 0);
    assert!(!v.direction);
}

#[test]
fn tally_and_settle() {
    let votes = vec![
        MotionVote { user: UserId(1), direction: true, amount: 7 },
        MotionVote { user: UserId(2), direction: false, amount: 3 },
    ];
    assert_eq!(tally_votes(&votes), Some((7, 3)));
    let m = motion(2);
    assert!(settle_motion(&m, &votes, 500 + MOTION_EXPIRATION).is_none());
    let s = settle_motion(&m, &votes, 501 + MOTION_EXPIRATION).unwrap();
    assert!(s.passed);
    assert_eq!((s.motion_id, s.yes_votes, s.no_votes), (12, 7, 3));
    let more = vec![
        MotionVote { user: UserId(1), direction: true, amount: 7 },
        MotionVote { user: UserId(2), direction: false, amount: 4 },
    ];
    assert!(!settle_motion(&m, &more, 501 + MOTION_EXPIRATION).unwrap().passed);
    let huge = vec![
        MotionVote { user: UserId(1), direction: true, amount: i64::MAX },
        MotionVote { user: UserId(2), direction: true, amount: 1 },
    ];
    assert_eq!(tally_votes(&huge), None);
}

#[test]
fn motion_with_count_from_motion() {
    let m = motion(2);
    let c = MotionWithCount::from_motion(m, 7, 3);
    assert!(c.is_win);
    assert_eq!(c.damm_id(), "125");
    assert_eq!(c.end_at(), 500 + MOTION_EXPIRATION);
}

#[test]
fn meta_description_text() {
    let c = MotionWithCount::from_motion(motion(2), 7, 3);
    assert_eq!(pluto::motion::motion_meta_description(&c, false, "noon"), "Supermotion More snacks");
    assert_eq!(
        pluto::motion::motion_meta_description(&c, true, "noon"),
        "May pass with 7 IN FAVOR vs 3 against at noon: Supermotion More snacks"
    );
    let mut m = motion(1);
    m.announcement_message_id = Some(3);
    let c = MotionWithCount::from_motion(m, 1, 1);
    assert_eq!(
        pluto::motion::motion_meta_description(&c, false, "noon"),
        "FAILED with 1 AGAINST vs 1 in favor at noon: Simple motion More snacks"
    );
}

#[test]
fn scheduler_pass_settles_due_motions_only() {
    let due = motion(1);
    let mut fresh = motion(1);
    fresh.rowid = 13;
    fresh.last_result_change = 1000;
    let mut announced = motion(1);
    announced.rowid = 14;
    announced.announcement_message_id = Some(2);
    let votes = vec![
        vec![MotionVote { user: UserId(1), direction: false, amount: 2 }],
        vec![],
        vec![],
    ];
    let now = 501 + MOTION_EXPIRATION;
    let settled = pluto::motion::settle_expired_motions(&vec![due, fresh, announced], &votes, now);
    assert_eq!(settled.len(), 1);
    assert_eq!((settled[0].motion_id, settled[0].passed, settled[0].no_votes), (12, false, 2));
}
