use vstd::prelude::*;

use crate::ledger::{NewTransfer, TransactionBuilder, TransferHandler};
use crate::models::{damm_of_id, damm_text, MotionVote, Timestamp, UserId, MOTION_EXPIRATION};
use crate::power::{is_win, wins, Power};
use crate::votes::{votes_affordable, votes_cost, votes_total};

verus! {

/// A motion put to the vote.
pub struct Motion {
    pub rowid: i64,
    pub bot_message_id: i64,
    pub motion_text: String,
    pub motioned_at: Timestamp,
    pub last_result_change: Timestamp,
    pub power: Power,
    pub announcement_message_id: Option<i64>,
}

/// A motion together with its vote totals and whether it passes with them.
pub struct MotionWithCount {
    pub rowid: i64,
    pub bot_message_id: i64,
    pub motion_text: String,
    pub motioned_at: Timestamp,
    pub last_result_change: Timestamp,
    pub power: Power,
    pub announcement_message_id: Option<i64>,
    pub yes_vote_count: u64,
    pub no_vote_count: u64,
    pub is_win: bool,
}

impl Motion {
    /// The motion's public id, with its check digit.
    pub fn damm_id(&self) -> (r: String)
        requires
            self.rowid >= 0,
        ensures
            r@ == damm_text(self.rowid as nat),
    {
        damm_of_id(self.rowid)
    }

    /// Whether the motion still takes votes at `now`: it has not been
    /// announced, and its outcome last changed less than the expiration
    /// window ago.
    pub open spec fn spec_is_open(&self, now: int) -> bool {
        self.announcement_message_id is None && self.last_result_change > now - MOTION_EXPIRATION
    }

    pub fn is_open(&self, now: Timestamp) -> (r: bool)
        requires
            now >= i64::MIN + MOTION_EXPIRATION,
        ensures
            r == self.spec_is_open(now as int),
    {
        self.announcement_message_id.is_none() && self.last_result_change > now - MOTION_EXPIRATION
    }

    /// Whether the scheduler settles the motion at `now`: it has not been
    /// announced, and its outcome has not changed for the whole window.
    pub open spec fn spec_is_due(&self, now: int) -> bool {
        self.announcement_message_id is None && self.last_result_change < now - MOTION_EXPIRATION
    }

    pub fn is_due(&self, now: Timestamp) -> (r: bool)
        requires
            now >= i64::MIN + MOTION_EXPIRATION,
        ensures
            r == self.spec_is_due(now as int),
    {
        self.announcement_message_id.is_none() && self.last_result_change < now - MOTION_EXPIRATION
    }
}

impl MotionWithCount {
    pub fn from_motion(m: Motion, yes_vote_count: u64, no_vote_count: u64) -> (r: MotionWithCount)
        requires
            m.power.wf(),
            yes_vote_count <= i64::MAX,
            no_vote_count <= i64::MAX,
        ensures
            r.rowid == m.rowid,
            r.bot_message_id == m.bot_message_id,
            r.motion_text == m.motion_text,
            r.motioned_at == m.motioned_at,
            r.last_result_change == m.last_result_change,
            r.power == m.power,
            r.announcement_message_id == m.announcement_message_id,
            r.yes_vote_count == yes_vote_count,
            r.no_vote_count == no_vote_count,
            r.is_win == wins(yes_vote_count as int, no_vote_count as int, m.power),
    {
        let w = is_win(yes_vote_count as i64, no_vote_count as i64, &m.power);
        MotionWithCount {
            rowid: m.rowid,
            bot_message_id: m.bot_message_id,
            motion_text: m.motion_text,
            motioned_at: m.motioned_at,
            last_result_change: m.last_result_change,
            power: m.power,
            announcement_message_id: m.announcement_message_id,
            yes_vote_count,
            no_vote_count,
            is_win: w,
        }
    }

    pub fn damm_id(&self) -> (r: String)
        requires
            self.rowid >= 0,
        ensures
            r@ == damm_text(self.rowid as nat),
    {
        damm_of_id(self.rowid)
    }

    /// When voting closes unless the outcome flips again.
    pub fn end_at(&self) -> (r: Timestamp)
        requires
            self.last_result_change <= i64::MAX - MOTION_EXPIRATION,
        ensures
            r == self.last_result_change + MOTION_EXPIRATION,
    {
        self.last_result_change + MOTION_EXPIRATION
    }
}

/// Why a vote was refused.
#[derive(Clone, Copy, Debug, PartialEq, Eq, Structural)]
pub enum VoteRejection {
    NegativeCount,
    NotFound,
    Expired,
    DirectionChange,
    NoDirection,
    Overflow,
    CostOverflow,
    NotEnough,
}

impl VoteRejection {
    /// The text shown to the voter.
    pub fn message(&self) -> (r: &'static str)
        ensures
            r@ == match *self {
                VoteRejection::NegativeCount => "Can not vote a negative number of times."@,
                VoteRejection::NotFound => "Motion not found."@,
                VoteRejection::Expired => "Motion has expired."@,
                VoteRejection::DirectionChange => "You cannot change your vote."@,
                VoteRejection::NoDirection => "You must specify how you want to vote!"@,
                VoteRejection::Overflow => "Overflow"@,
                VoteRejection::CostOverflow => "Integer overflow, no way you have that much pc"@,
                VoteRejection::NotEnough => "Not enough capital."@,
            },
    {
        match self {
            VoteRejection::NegativeCount => "Can not vote a negative number of times.",
            VoteRejection::NotFound => "Motion not found.",
            VoteRejection::Expired => "Motion has expired.",
            VoteRejection::DirectionChange => "You cannot change your vote.",
            VoteRejection::NoDirection => "You must specify how you want to vote!",
            VoteRejection::Overflow => "Overflow",
            VoteRejection::CostOverflow => "Integer overflow, no way you have that much pc",
            VoteRejection::NotEnough => "Not enough capital.",
        }
    }
}

/// What an accepted vote changes.
pub struct VoteReceipt {
    pub motion_id: i64,
    pub direction: bool,
    /// Whether the voter had no vote row on this motion yet.
    pub new_voter: bool,
    /// The ordinals of the votes bought: `ordinal_start` up to, not
    /// including, `ordinal_end`.
    pub ordinal_start: i64,
    pub ordinal_end: i64,
    pub cost: i64,
    /// The voter's vote count on the motion afterwards.
    pub new_amount: i64,
    pub yes_votes: i64,
    pub no_votes: i64,
    pub result_flipped: bool,
    pub last_result_change: Timestamp,
    pub transfer: NewTransfer,
}

pub enum VoteOutcome {
    Rejected(VoteRejection),
    Accepted(VoteReceipt),
}

/// The totals after adding `count` votes in `direction`.
pub open spec fn tallies_after(yes: int, no: int, direction: bool, count: int) -> (int, int) {
    if direction {
        (yes + count, no)
    } else {
        (yes, no + count)
    }
}

/// The rejection a vote meets, if any, before funds are looked at.
pub open spec fn vote_precheck(
    motion: Option<&Motion>,
    existing: Option<(bool, i64)>,
    yes_votes: int,
    no_votes: int,
    vote_direction: Option<bool>,
    vote_count: int,
    now: int,
) -> Option<VoteRejection> {
    let so_far: int = match existing {
        Some(e) => e.1 as int,
        None => 0,
    };
    let direction = match existing {
        Some(e) => e.0,
        None => vote_direction->0,
    };
    let after = tallies_after(yes_votes, no_votes, direction, vote_count);
    if vote_count < 0 {
        Some(VoteRejection::NegativeCount)
    } else if motion is None {
        Some(VoteRejection::NotFound)
    } else if !motion->0.spec_is_open(now) {
        Some(VoteRejection::Expired)
    } else if existing is Some && vote_direction is Some && vote_direction->0 != (existing->0).0 {
        Some(VoteRejection::DirectionChange)
    } else if existing is None && vote_direction is None {
        Some(VoteRejection::NoDirection)
    } else if so_far + 1 + vote_count > i64::MAX {
        Some(VoteRejection::Overflow)
    } else if !votes_affordable(so_far + 1, vote_count as nat) {
        Some(VoteRejection::CostOverflow)
    } else if after.0 > i64::MAX || after.1 > i64::MAX {
        Some(VoteRejection::Overflow)
    } else {
        None
    }
}

/// Buys `vote_count` more votes for `user_id` on a motion, inside one
/// transaction. `motion` is the motion looked up by id or message (locked),
/// `existing` the voter's vote row on it (direction, count), and `yes_votes`
/// and `no_votes` the motion's totals before this vote. The votes cost the
/// sum of the costs of their ordinals, debited from the voter's political
/// capital in `handle`; a rejected vote changes nothing.
pub fn vote_common(
    handle: &mut TransferHandler,
    motion: Option<&Motion>,
    existing: Option<(bool, i64)>,
    yes_votes: i64,
    no_votes: i64,
    vote_direction: Option<bool>,
    vote_count: i64,
    user_id: UserId,
    now: Timestamp,
    command_message_id: Option<i64>,
) -> (r: VoteOutcome)
    requires
        old(handle).wf(),
        old(handle)@.contains_key((user_id.0, "pc"@)),
        existing is Some ==> (existing->0).1 >= 0,
        motion is Some ==> motion->0.power.wf(),
        now >= i64::MIN + MOTION_EXPIRATION,
    ensures
        final(handle).wf(),
        ({
            let pre = vote_precheck(motion, existing, yes_votes as int, no_votes as int, vote_direction, vote_count as int, now as int);
            let so_far: int = match existing {
                Some(e) => e.1 as int,
                None => 0,
            };
            let direction = match existing {
                Some(e) => e.0,
                None => vote_direction->0,
            };
            let cost = votes_total(so_far + 1, vote_count as nat);
            let after = tallies_after(yes_votes as int, no_votes as int, direction, vote_count as int);
            match r {
                VoteOutcome::Rejected(why) => {
                    &&& final(handle)@ == old(handle)@
                    &&& match pre {
                        Some(p) => why == p,
                        None => why == VoteRejection::NotEnough && old(handle)@[(user_id.0, "pc"@)] < cost,
                    }
                },
                VoteOutcome::Accepted(v) => {
                    let m = motion->0;
                    let before_win = wins(yes_votes as int, no_votes as int, m.power);
                    let after_win = wins(after.0, after.1, m.power);
                    &&& pre is None
                    &&& old(handle)@[(user_id.0, "pc"@)] >= cost
                    &&& final(handle)@ == old(handle)@.insert((user_id.0, "pc"@), old(handle)@[(user_id.0, "pc"@)] - cost)
                    &&& v.motion_id == m.rowid
                    &&& v.direction == direction
                    &&& v.new_voter == (existing is None)
                    &&& v.ordinal_start == so_far + 1
                    &&& v.ordinal_end == so_far + 1 + vote_count
                    &&& v.cost == cost
                    &&& v.new_amount == so_far + vote_count
                    &&& v.yes_votes == after.0
                    &&& v.no_votes == after.1
                    &&& v.result_flipped == (before_win != after_win)
                    &&& v.last_result_change == if before_win != after_win { now } else { m.last_result_change }
                    &&& v.transfer.ty@ == "pc"@
                    &&& v.transfer.from_user == Some(user_id)
                    &&& v.transfer.to_user is None
                    &&& v.transfer.quantity == cost
                    &&& v.transfer.transfer_ty == crate::models::TransferType::MotionVote
                    &&& v.transfer.to_motion == Some(m.rowid)
                    &&& v.transfer.to_votes == Some(vote_count)
                    &&& v.transfer.message_id == command_message_id
                    &&& v.transfer.happened_at == now
                },
            }
        }),
{
    if vote_count < 0 {
        return VoteOutcome::Rejected(VoteRejection::NegativeCount);
    }
    let m = match motion {
        Some(m) => m,
        None => {
            return VoteOutcome::Rejected(VoteRejection::NotFound);
        },
    };
    if !m.is_open(now) {
        return VoteOutcome::Rejected(VoteRejection::Expired);
    }
    let (direction, so_far) = match existing {
        Some((dir, count)) => {
            match vote_direction {
                Some(requested) => {
                    if requested != dir {
                        return VoteOutcome::Rejected(VoteRejection::DirectionChange);
                    }
                },
                None => {},
            }
            (dir, count)
        },
        None => {
            match vote_direction {
                Some(requested) => (requested, 0i64),
                None => {
                    return VoteOutcome::Rejected(VoteRejection::NoDirection);
                },
            }
        },
    };
    if so_far >= i64::MAX - vote_count {
        return VoteOutcome::Rejected(VoteRejection::Overflow);
    }
    let ordinal_start = so_far + 1;
    let ordinal_end = ordinal_start + vote_count;
    let cost = match votes_cost(ordinal_start, vote_count) {
        Ok(c) => c,
        Err(()) => {
            return VoteOutcome::Rejected(VoteRejection::CostOverflow);
        },
    };
    let mut yes_after = yes_votes;
    let mut no_after = no_votes;
    if direction {
        if yes_votes > i64::MAX - vote_count {
            return VoteOutcome::Rejected(VoteRejection::Overflow);
        }
        yes_after = yes_votes + vote_count;
    } else {
        if no_votes > i64::MAX - vote_count {
            return VoteOutcome::Rejected(VoteRejection::Overflow);
        }
        no_after = no_votes + vote_count;
    }
    let t = TransactionBuilder::new(cost, crate::models::CurrencyId::pc(), now);
    let t = t.motion(user_id, m.rowid, vote_count, false);
    let t = match command_message_id {
        Some(id) => t.message_id_raw(id),
        None => t,
    };
    let row = match handle.transfer(t) {
        Ok(row) => row,
        Err(_) => {
            return VoteOutcome::Rejected(VoteRejection::NotEnough);
        },
    };
    let before_win = is_win(yes_votes, no_votes, &m.power);
    let after_win = is_win(yes_after, no_after, &m.power);
    let flipped = before_win != after_win;
    VoteOutcome::Accepted(VoteReceipt {
        motion_id: m.rowid,
        direction,
        new_voter: existing.is_none(),
        ordinal_start,
        ordinal_end,
        cost,
        new_amount: so_far + vote_count,
        yes_votes: yes_after,
        no_votes: no_after,
        result_flipped: flipped,
        last_result_change: if flipped { now } else { m.last_result_change },
        transfer: row,
    })
}

/// The votes cast in `direction`.
pub open spec fn vote_sum(votes: Seq<MotionVote>, direction: bool) -> int
    decreases votes.len(),
{
    if votes.len() == 0 {
        0
    } else {
        vote_sum(votes.drop_last(), direction) + if votes.last().direction == direction {
            votes.last().amount as int
        } else {
            0
        }
    }
}

proof fn lemma_vote_sum_monotone(votes: Seq<MotionVote>, i: int, direction: bool)
    requires
        0 <= i <= votes.len(),
        forall|j: int| 0 <= j < votes.len() ==> votes[j].amount >= 0,
    ensures
        0 <= vote_sum(votes.subrange(0, i), direction) <= vote_sum(votes, direction),
    decreases votes.len(),
{
    if i == votes.len() {
        assert(votes.subrange(0, i) =~= votes);
        if votes.len() > 0 {
            lemma_vote_sum_monotone(votes.drop_last(), i - 1, direction);
            assert(votes.drop_last().subrange(0, i - 1) =~= votes.drop_last());
        }
    } else {
        lemma_vote_sum_monotone(votes.drop_last(), i, direction);
        assert(votes.drop_last().subrange(0, i) =~= votes.subrange(0, i));
    }
}

/// The yes and no totals of a motion's vote rows, or `None` where one does
/// not fit an `i64`.
pub fn tally_votes(votes: &Vec<MotionVote>) -> (r: Option<(i64, i64)>)
    requires
        forall|j: int| 0 <= j < votes@.len() ==> votes@[j].amount >= 0,
    ensures
        r is Some <==> vote_sum(votes@, true) <= i64::MAX && vote_sum(votes@, false) <= i64::MAX,
        r is Some ==> (r->0).0 == vote_sum(votes@, true) && (r->0).1 == vote_sum(votes@, false),
{
    let mut yes: i64 = 0;
    let mut no: i64 = 0;
    let mut i: usize = 0;
    while i < votes.len()
        invariant
            0 <= i <= votes@.len(),
            forall|j: int| 0 <= j < votes@.len() ==> votes@[j].amount >= 0,
            yes == vote_sum(votes@.subrange(0, i as int), true),
            no == vote_sum(votes@.subrange(0, i as int), false),
        decreases votes@.len() - i,
    {
        let v = votes[i];
        proof {
            assert(votes@.subrange(0, i as int + 1).drop_last() =~= votes@.subrange(0, i as int));
            lemma_vote_sum_monotone(votes@, i as int + 1, true);
            lemma_vote_sum_monotone(votes@, i as int + 1, false);
        }
        if v.direction {
            if yes > i64::MAX - v.amount {
                return None;
            }
            yes = yes + v.amount;
        } else {
            if no > i64::MAX - v.amount {
                return None;
            }
            no = no + v.amount;
        }
        i = i + 1;
    }
    proof {
        assert(votes@.subrange(0, i as int) =~= votes@);
    }
    Some((yes, no))
}

/// The announced outcome of a settled motion.
#[derive(Clone, Copy, Debug, PartialEq, Eq, Structural)]
pub struct MotionSettled {
    pub motion_id: i64,
    pub passed: bool,
    pub yes_votes: i64,
    pub no_votes: i64,
}

/// Settles a motion at `now` from its vote rows. `None` where the motion is
/// not due yet, or where its totals do not fit an `i64`.
pub fn settle_motion(motion: &Motion, votes: &Vec<MotionVote>, now: Timestamp) -> (r: Option<MotionSettled>)
    requires
        motion.power.wf(),
        now >= i64::MIN + MOTION_EXPIRATION,
        forall|j: int| 0 <= j < votes@.len() ==> votes@[j].amount >= 0,
    ensures
        r is Some <==> motion.spec_is_due(now as int) && vote_sum(votes@, true) <= i64::MAX
            && vote_sum(votes@, false) <= i64::MAX,
        r is Some ==> r->0 == (MotionSettled {
            motion_id: motion.rowid,
            passed: wins(vote_sum(votes@, true), vote_sum(votes@, false), motion.power),
            yes_votes: vote_sum(votes@, true) as i64,
            no_votes: vote_sum(votes@, false) as i64,
        }),
{
    if !motion.is_due(now) {
        return None;
    }
    match tally_votes(votes) {
        Some((yes, no)) => Some(
            MotionSettled {
                motion_id: motion.rowid,
                passed: is_win(yes, no, &motion.power),
                yes_votes: yes,
                no_votes: no,
            },
        ),
        None => None,
    }
}

/// The outcome of settling one motion with its vote rows, as a spec.
pub open spec fn settlement_of(m: Motion, votes: Seq<MotionVote>, now: int) -> Option<MotionSettled> {
    if m.spec_is_due(now) && vote_sum(votes, true) <= i64::MAX && vote_sum(votes, false) <= i64::MAX {
        Some(
            MotionSettled {
                motion_id: m.rowid,
                passed: wins(vote_sum(votes, true), vote_sum(votes, false), m.power),
                yes_votes: vote_sum(votes, true) as i64,
                no_votes: vote_sum(votes, false) as i64,
            },
        )
    } else {
        None
    }
}

/// The settlements, in order, of those motions that are due.
pub open spec fn settled_motions(ms: Seq<Motion>, vs: Seq<Vec<MotionVote>>, now: int) -> Seq<MotionSettled>
    decreases ms.len(),
{
    if ms.len() == 0 {
        Seq::empty()
    } else {
        let rest = settled_motions(ms.drop_last(), vs.subrange(0, ms.len() - 1), now);
        match settlement_of(ms.last(), vs[ms.len() - 1]@, now) {
            Some(s) => rest.push(s),
            None => rest,
        }
    }
}

/// One scheduler pass over the open motions: settles each motion that is
/// due, independently of the others. `votes[i]` holds the vote rows of
/// `motions[i]`.
pub fn settle_expired_motions(motions: &Vec<Motion>, votes: &Vec<Vec<MotionVote>>, now: Timestamp) -> (r: Vec<
    MotionSettled,
>)
    requires
        motions@.len() == votes@.len(),
        now >= i64::MIN + MOTION_EXPIRATION,
        forall|i: int| 0 <= i < motions@.len() ==> (#[trigger] motions@[i]).power.wf(),
        forall|i: int, j: int|
            0 <= i < votes@.len() && 0 <= j < votes@[i]@.len() ==> (#[trigger] votes@[i]@[j]).amount >= 0,
    ensures
        r@ == settled_motions(motions@, votes@, now as int),
{
    let mut out: Vec<MotionSettled> = Vec::new();
    let mut i: usize = 0;
    while i < motions.len()
        invariant
            motions@.len() == votes@.len(),
            now >= i64::MIN + MOTION_EXPIRATION,
            forall|k: int| 0 <= k < motions@.len() ==> (#[trigger] motions@[k]).power.wf(),
            forall|k: int, j: int|
                0 <= k < votes@.len() && 0 <= j < votes@[k]@.len() ==> (#[trigger] votes@[k]@[j]).amount >= 0,
            0 <= i <= motions@.len(),
            out@ == settled_motions(motions@.subrange(0, i as int), votes@.subrange(0, i as int), now as int),
        decreases motions@.len() - i,
    {
        let ghost ms = motions@.subrange(0, i as int + 1);
        let ghost vs = votes@.subrange(0, i as int + 1);
        proof {
            assert(ms.drop_last() =~= motions@.subrange(0, i as int));
            assert(vs.subrange(0, i as int) =~= votes@.subrange(0, i as int));
            assert(ms.last() == motions@[i as int]);
            assert(vs[i as int] == votes@[i as int]);
        }
        match settle_motion(&motions[i], &votes[i], now) {
            Some(s) => {
                out.push(s);
            },
            None => {},
        }
        i = i + 1;
    }
    proof {
        assert(motions@.subrange(0, i as int) =~= motions@);
        assert(votes@.subrange(0, i as int) =~= votes@);
    }
    out
}

/// How many motions one member may call per UTC day.
pub const MAX_MOTIONS_PER_DAY: i64 = 10;

/// The longest motion text, in code points.
pub const MAX_MOTION_LENGTH_CODEPOINTS: usize = 1000;

/// The start of the UTC day that holds `t`.
pub open spec fn spec_day_start(t: int) -> int {
    t - t % 86400
}

#[verifier::rlimit(30)]
pub fn utc_day_start(t: Timestamp) -> (r: Timestamp)
    requires
        t >= i64::MIN + 86400,
    ensures
        r as int == spec_day_start(t as int),
        r <= t,
        t - r < 86400,
{
    let m = t % 86400;
    let m = if m < 0 { m + 86400 } else { m };
    proof {
        assert((t as int) % 86400 == m) by {
            vstd::arithmetic::div_mod::lemma_fundamental_div_mod(t as int, 86400);
        }
    }
    t - m
}

/// Why a motion could not be called.
#[derive(Clone, Copy, Debug, PartialEq, Eq, Structural)]
pub enum MotionRejection {
    TooLong,
    NotEnoughCapital,
    TooManyToday,
}

impl MotionRejection {
    pub fn message(&self) -> (r: &'static str)
        ensures
            r@ == match *self {
                MotionRejection::TooLong => "Your motion is too long."@,
                MotionRejection::NotEnoughCapital => "You don't have enough capital."@,
                MotionRejection::TooManyToday => "You have called too many motions today."@,
            },
    {
        match self {
            MotionRejection::TooLong => "Your motion is too long.",
            MotionRejection::NotEnoughCapital => "You don't have enough capital.",
            MotionRejection::TooManyToday => "You have called too many motions today.",
        }
    }
}

/// A newly called motion: the motion, its caller's first vote, and the
/// payment for it.
pub struct MotionCreated {
    pub motion: Motion,
    pub first_vote: MotionVote,
    pub transfer: NewTransfer,
}

pub enum MotionCreation {
    Rejected(MotionRejection),
    Created(MotionCreated),
}

/// Calls a motion, inside one transaction that holds the motion table and the
/// caller's political capital. `motions_today` is how many motions the caller
/// has called since the start of the current UTC day. The caller pays the
/// base vote cost and holds the motion's first vote, in favour.
pub fn motion_create(
    handle: &mut TransferHandler,
    creator: UserId,
    motion_id: i64,
    bot_message_id: i64,
    motion_text: String,
    power: Power,
    motions_today: i64,
    now: Timestamp,
    command_message_id: Option<i64>,
) -> (r: MotionCreation)
    requires
        old(handle).wf(),
        old(handle)@.contains_key((creator.0, "pc"@)),
    ensures
        final(handle).wf(),
        ({
            let bal = old(handle)@[(creator.0, "pc"@)];
            match r {
                MotionCreation::Rejected(why) => {
                    &&& final(handle)@ == old(handle)@
                    &&& why == if motion_text@.len() > MAX_MOTION_LENGTH_CODEPOINTS {
                        MotionRejection::TooLong
                    } else if bal < crate::votes::VOTE_BASE_COST {
                        MotionRejection::NotEnoughCapital
                    } else {
                        MotionRejection::TooManyToday
                    }
                    &&& (why == MotionRejection::TooManyToday ==> motions_today >= MAX_MOTIONS_PER_DAY)
                },
                MotionCreation::Created(c) => {
                    &&& motion_text@.len() <= MAX_MOTION_LENGTH_CODEPOINTS
                    &&& bal >= crate::votes::VOTE_BASE_COST
                    &&& motions_today < MAX_MOTIONS_PER_DAY
                    &&& final(handle)@ == old(handle)@.insert((creator.0, "pc"@), bal - crate::votes::VOTE_BASE_COST)
                    &&& c.motion.rowid == motion_id
                    &&& c.motion.bot_message_id == bot_message_id
                    &&& c.motion.motion_text == motion_text
                    &&& c.motion.motioned_at == now
                    &&& c.motion.last_result_change == now
                    &&& c.motion.power == power
                    &&& c.motion.announcement_message_id is None
                    &&& c.first_vote.user == creator
                    &&& c.first_vote.direction
                    &&& c.first_vote.amount == 1
                    &&& c.transfer.from_user == Some(creator)
                    &&& c.transfer.to_user is None
                    &&& c.transfer.quantity == crate::votes::VOTE_BASE_COST
                    &&& c.transfer.ty@ == "pc"@
                    &&& c.transfer.transfer_ty == crate::models::TransferType::MotionCreate
                    &&& c.transfer.to_motion == Some(motion_id)
                    &&& c.transfer.to_votes == Some(1i64)
                    &&& c.transfer.message_id == command_message_id
                    &&& c.transfer.happened_at == now
                },
            }
        }),
{
    if motion_text.as_str().unicode_len() > MAX_MOTION_LENGTH_CODEPOINTS {
        return MotionCreation::Rejected(MotionRejection::TooLong);
    }
    let pc = crate::models::CurrencyId::pc();
    let balance = handle.balance(creator, &pc);
    let cost = crate::votes::VOTE_BASE_COST as i64;
    if balance < cost {
        return MotionCreation::Rejected(MotionRejection::NotEnoughCapital);
    }
    if motions_today >= MAX_MOTIONS_PER_DAY {
        return MotionCreation::Rejected(MotionRejection::TooManyToday);
    }
    let t = TransactionBuilder::new(cost, pc, now);
    let t = t.motion(creator, motion_id, 1, true);
    let t = match command_message_id {
        Some(id) => t.message_id_raw(id),
        None => t,
    };
    let row = match handle.transfer(t) {
        Ok(row) => row,
        Err(_) => {
            return MotionCreation::Rejected(MotionRejection::NotEnoughCapital);
        },
    };
    MotionCreation::Created(
        MotionCreated {
            motion: Motion {
                rowid: motion_id,
                bot_message_id,
                motion_text,
                motioned_at: now,
                last_result_change: now,
                power,
                announcement_message_id: None,
            },
            first_vote: MotionVote { user: creator, direction: true, amount: 1 },
            transfer: row,
        },
    )
}

/// The one-line description of a motion for page metadata.
pub open spec fn meta_description(m: MotionWithCount, detailed: bool, end_text: Seq<char>) -> Seq<char> {
    let yes = crate::models::decimal(m.yes_vote_count as nat);
    let no = crate::models::decimal(m.no_vote_count as nat);
    let votes = if m.is_win {
        yes + " IN FAVOR vs "@ + no + " against"@
    } else {
        yes + " AGAINST vs "@ + no + " in favor"@
    };
    let text = crate::power::label_of(m.power) + " "@ + m.motion_text@;
    let result = if m.announcement_message_id is Some {
        if m.is_win { "PASSED"@ } else { "FAILED"@ }
    } else {
        if m.is_win { "May pass"@ } else { "May fail"@ }
    };
    if detailed || m.announcement_message_id is Some {
        result + " with "@ + votes + " at "@ + end_text + ": "@ + text
    } else {
        text
    }
}

/// Describes a motion in one line; `end_text` is the time voting ends, as
/// shown to readers.
pub fn motion_meta_description(motion: &MotionWithCount, detailed: bool, end_text: &str) -> (r: String)
    requires
        motion.power.wf(),
    ensures
        r@ == meta_description(*motion, detailed, end_text@),
{
    let yes = crate::models::u64_to_decimal(motion.yes_vote_count);
    let no = crate::models::u64_to_decimal(motion.no_vote_count);
    let mut votes = yes;
    if motion.is_win {
        votes.append(" IN FAVOR vs ");
        votes.append(no.as_str());
        votes.append(" against");
    } else {
        votes.append(" AGAINST vs ");
        votes.append(no.as_str());
        votes.append(" in favor");
    }
    let mut text = crate::power::motion_label(&motion.power);
    text.append(" ");
    text.append(motion.motion_text.as_str());
    if detailed || motion.announcement_message_id.is_some() {
        let mut out = if motion.announcement_message_id.is_some() {
            if motion.is_win {
                String::from_str("PASSED")
            } else {
                String::from_str("FAILED")
            }
        } else {
            if motion.is_win {
                String::from_str("May pass")
            } else {
                String::from_str("May fail")
            }
        };
        out.append(" with ");
        out.append(votes.as_str());
        out.append(" at ");
        out.append(end_text);
        out.append(": ");
        out.append(text.as_str());
        proof {
            assert(out@ =~= meta_description(*motion, detailed, end_text@));
        }
        out
    } else {
        proof {
            assert(text@ =~= meta_description(*motion, detailed, end_text@));
        }
        text
    }
}

} // verus!
