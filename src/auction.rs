use vstd::prelude::*;

use crate::ledger::{NewTransfer, TransactionBuilder, TransferHandler};
use crate::models::{AuctionWinner, Timestamp, TransferType, UserId, AUCTION_EXPIRATION};

verus! {

/// Why a bid was refused.
#[derive(Clone, Copy, Debug, PartialEq, Eq, Structural)]
pub enum BidRejection {
    NegativeAmount,
    Ended,
    TooLow,
    NotEnoughFunds,
    Overflow,
}

impl BidRejection {
    /// The text shown to the bidder.
    pub fn message(&self) -> (r: &'static str)
        ensures
            r@ == match *self {
                BidRejection::NegativeAmount => "Bid failed: You can not bid a negative amount."@,
                BidRejection::Ended => "Bid failed: Auction has ended"@,
                BidRejection::TooLow => "Bid failed: You must bid more than that."@,
                BidRejection::NotEnoughFunds => "Bid failed: You do not have enough to cover that bid."@,
                BidRejection::Overflow => "Bid failed: Balance would overflow."@,
            },
    {
        match self {
            BidRejection::NegativeAmount => "Bid failed: You can not bid a negative amount.",
            BidRejection::Ended => "Bid failed: Auction has ended",
            BidRejection::TooLow => "Bid failed: You must bid more than that.",
            BidRejection::NotEnoughFunds => "Bid failed: You do not have enough to cover that bid.",
            BidRejection::Overflow => "Bid failed: Balance would overflow.",
        }
    }
}

/// What an accepted bid leaves the auction with.
pub struct BidAccepted {
    /// The winner after the bid, and the public price they are held to.
    pub winner: UserId,
    pub price: i64,
    /// The standing max bid after the bid, if any.
    pub max_bid: Option<(UserId, i64)>,
    pub last_timer_bump: Timestamp,
    pub winner_changed: bool,
    /// The refund of the previous winner's reservation, if the winner changed.
    pub refund: Option<NewTransfer>,
    /// The reservation the bid takes, if it changed the price: the whole new
    /// price from a new winner, or only the increase from the same winner.
    pub reserve: Option<NewTransfer>,
}

pub enum BidOutcome {
    Rejected(BidRejection),
    Accepted(BidAccepted),
}

/// The most a standing max bid can really pay: its ceiling, but no more than
/// its holder's free balance plus what they already have reserved.
pub open spec fn effective_max(ceiling: int, holder_balance: int, reserved: int) -> int {
    if ceiling > holder_balance + reserved {
        holder_balance + reserved
    } else {
        ceiling
    }
}

/// The winner, price and standing max bid after a valid bid of `amount` by
/// `challenger`; `holder_balance` is the free balance of the max bid's holder.
pub open spec fn bid_resolution(
    a: AuctionWinner,
    challenger: UserId,
    amount: int,
    is_max_bid: bool,
    holder_balance: int,
) -> (UserId, int, Option<(UserId, i64)>) {
    match a.max_bid_amt {
        Some(ceiling) => {
            let holder = a.max_bid_user->0;
            let current = a.winner_bid->0 as int;
            let cap = effective_max(ceiling as int, holder_balance, current);
            if challenger == holder {
                if is_max_bid {
                    (holder, current, Some((holder, amount as i64)))
                } else {
                    (holder, amount, Some((holder, if amount > ceiling { amount as i64 } else { ceiling })))
                }
            } else if amount <= cap {
                (holder, if amount < cap { amount + 1 } else { cap }, Some((holder, ceiling)))
            } else if is_max_bid {
                (challenger, cap + 1, Some((challenger, amount as i64)))
            } else {
                (challenger, amount, None)
            }
        },
        None => match a.winner_id {
            Some(w) => {
                let current = a.winner_bid->0 as int;
                if is_max_bid {
                    if challenger == w {
                        (w, current, Some((challenger, amount as i64)))
                    } else {
                        (challenger, current + 1, Some((challenger, amount as i64)))
                    }
                } else {
                    (challenger, amount, None)
                }
            },
            None => if is_max_bid {
                (challenger, a.bid_min as int, Some((challenger, amount as i64)))
            } else {
                (challenger, amount, None)
            },
        },
    }
}

/// What the challenger can put up: their free balance, plus their own
/// reservation where they are the current winner.
pub open spec fn available_funds(a: AuctionWinner, challenger: UserId, balance: int) -> int {
    if a.winner_id == Some(challenger) {
        balance + a.winner_bid->0
    } else {
        balance
    }
}

/// The balances after a bid moves the reservation from the old winner to the
/// new one: the old reservation is refunded first, then the new one taken.
pub open spec fn moved_reservation(
    m: Map<(u64, Seq<char>), int>,
    a: AuctionWinner,
    winner: UserId,
    price: int,
) -> Map<(u64, Seq<char>), int> {
    let c = a.bid_ty@;
    let m1 = match a.winner_id {
        Some(w) => m.insert((w.0, c), m[(w.0, c)] + a.winner_bid->0),
        None => m,
    };
    m1.insert((winner.0, c), m1[(winner.0, c)] - price)
}

/// The balances after the same winner's price rises from the current bid to
/// `price`: only the difference is taken.
pub open spec fn raised_reservation(m: Map<(u64, Seq<char>), int>, a: AuctionWinner, price: int) -> Map<
    (u64, Seq<char>),
    int,
> {
    let k = ((a.winner_id->0).0, a.bid_ty@);
    m.insert(k, m[k] - (price - a.winner_bid->0))
}

/// The rejection a bid meets, if any; `balance` is the challenger's free
/// balance, `holder_balance` that of the max bid's holder.
pub open spec fn bid_precheck(
    a: AuctionWinner,
    challenger: UserId,
    amount: int,
    is_max_bid: bool,
    now: int,
    balance: int,
    holder_balance: int,
    winner_balance: int,
) -> Option<BidRejection> {
    let res = bid_resolution(a, challenger, amount, is_max_bid, holder_balance);
    let winner_changed = a.winner_id != Some(res.0);
    if amount < 0 {
        Some(BidRejection::NegativeAmount)
    } else if now > a.last_timer_bump + AUCTION_EXPIRATION {
        Some(BidRejection::Ended)
    } else if amount < a.spec_min_bid() {
        Some(BidRejection::TooLow)
    } else if available_funds(a, challenger, balance) < amount {
        Some(BidRejection::NotEnoughFunds)
    } else if winner_changed && a.winner_id is Some && winner_balance + a.winner_bid->0 > i64::MAX {
        Some(BidRejection::Overflow)
    } else {
        None
    }
}

/// Places a bid of `amount` by `challenger` on an auction, inside one
/// transaction. `handle` holds the bid currency's balances of the challenger
/// and of the current winner. Where the winner changes, the old reservation
/// is refunded and the new one taken; where only the price rises, the winner
/// reserves the difference. The anti-snipe timer is reset to `now` only where
/// the winning party changes. A rejected bid changes nothing.
pub fn auction_bid(
    handle: &mut TransferHandler,
    auction: &AuctionWinner,
    challenger: UserId,
    amount: i64,
    is_max_bid: bool,
    now: Timestamp,
) -> (r: BidOutcome)
    requires
        old(handle).wf(),
        auction.wf(),
        old(handle)@.contains_key((challenger.0, auction.bid_ty@)),
        auction.winner_id is Some ==> old(handle)@.contains_key(((auction.winner_id->0).0, auction.bid_ty@)),
        auction.last_timer_bump <= i64::MAX - AUCTION_EXPIRATION,
    ensures
        final(handle).wf(),
        ({
            let m = old(handle)@;
            let c = auction.bid_ty@;
            let balance = m[(challenger.0, c)];
            let winner_balance = match auction.winner_id {
                Some(w) => m[(w.0, c)],
                None => 0,
            };
            let holder_balance = winner_balance;
            let pre = bid_precheck(*auction, challenger, amount as int, is_max_bid, now as int, balance, holder_balance, winner_balance);
            let res = bid_resolution(*auction, challenger, amount as int, is_max_bid, holder_balance);
            let changed = !(auction.winner_id == Some(res.0) && auction.winner_bid == Some(res.1 as i64));
            match r {
                BidOutcome::Rejected(why) => pre == Some(why) && final(handle)@ == m,
                BidOutcome::Accepted(b) => {
                    &&& pre is None
                    &&& b.winner == res.0
                    &&& b.price == res.1
                    &&& b.max_bid == res.2
                    &&& b.winner_changed == (auction.winner_id != Some(res.0))
                    &&& b.last_timer_bump == if b.winner_changed { now } else { auction.last_timer_bump }
                    &&& final(handle)@ == if b.winner_changed {
                        moved_reservation(m, *auction, res.0, res.1)
                    } else if changed {
                        raised_reservation(m, *auction, res.1)
                    } else {
                        m
                    }
                    &&& b.max_bid is Some ==> (b.max_bid->0).0 == b.winner && (b.max_bid->0).1 >= b.price
                    &&& b.refund is Some <==> b.winner_changed && auction.winner_id is Some
                    &&& b.reserve is Some <==> changed
                    &&& b.refund is Some ==> {
                        let t = b.refund->0;
                        &&& t.to_user == auction.winner_id
                        &&& t.from_user is None
                        &&& t.quantity == auction.winner_bid->0
                        &&& t.ty@ == c
                        &&& t.transfer_ty == TransferType::AuctionRefund
                        &&& t.auction_id == Some(auction.auction_id)
                        &&& t.happened_at == now
                    }
                    &&& b.reserve is Some ==> {
                        let t = b.reserve->0;
                        &&& t.from_user == Some(res.0)
                        &&& t.to_user is None
                        &&& t.quantity == if b.winner_changed { res.1 } else { res.1 - auction.winner_bid->0 }
                        &&& t.ty@ == c
                        &&& t.transfer_ty == TransferType::AuctionReserve
                        &&& t.auction_id == Some(auction.auction_id)
                        &&& t.happened_at == now
                    }
                },
            }
        }),
{
    let ghost m = handle@;
    if amount < 0 {
        return BidOutcome::Rejected(BidRejection::NegativeAmount);
    }
    if now > auction.end_at() {
        return BidOutcome::Rejected(BidRejection::Ended);
    }
    if amount < auction.current_min_bid() {
        return BidOutcome::Rejected(BidRejection::TooLow);
    }
    let balance = handle.balance(challenger, &auction.bid_ty);
    let old_bid = auction.winner();
    let mut reserved: i64 = 0;
    let mut winner_balance: i64 = 0;
    match old_bid {
        Some((w, b)) => {
            winner_balance = handle.balance(w, &auction.bid_ty);
            if w == challenger {
                reserved = b;
            }
        },
        None => {},
    }
    // Available funds are compared without forming their sum.
    if balance < amount - reserved {
        return BidOutcome::Rejected(BidRejection::NotEnoughFunds);
    }
    let new_winner: UserId;
    let price: i64;
    let new_max: Option<(UserId, i64)>;
    match auction.max_bid_amt {
        Some(ceiling) => {
            let holder = match auction.max_bid_user {
                Some(u) => u,
                None => challenger,
            };
            let current = match auction.winner_bid {
                Some(b) => b,
                None => 0,
            };
            let cap: i64 = if winner_balance > i64::MAX - current || ceiling <= winner_balance + current {
                ceiling
            } else {
                winner_balance + current
            };
            if challenger == holder {
                if is_max_bid {
                    new_winner = holder;
                    price = current;
                    new_max = Some((holder, amount));
                } else {
                    new_winner = holder;
                    price = amount;
                    new_max = Some((holder, if amount > ceiling { amount } else { ceiling }));
                }
            } else if amount <= cap {
                new_winner = holder;
                price = if amount < cap { amount + 1 } else { cap };
                new_max = Some((holder, ceiling));
            } else if is_max_bid {
                new_winner = challenger;
                price = cap + 1;
                new_max = Some((challenger, amount));
            } else {
                new_winner = challenger;
                price = amount;
                new_max = None;
            }
        },
        None => match old_bid {
            Some((w, current)) => {
                if is_max_bid {
                    if challenger == w {
                        new_winner = w;
                        price = current;
                    } else {
                        new_winner = challenger;
                        price = current + 1;
                    }
                    new_max = Some((challenger, amount));
                } else {
                    new_winner = challenger;
                    price = amount;
                    new_max = None;
                }
            },
            None => {
                new_winner = challenger;
                price = if is_max_bid { auction.bid_min } else { amount };
                new_max = if is_max_bid { Some((challenger, amount)) } else { None };
            },
        },
    }
    let ghost res = bid_resolution(*auction, challenger, amount as int, is_max_bid, winner_balance as int);
    assert(new_winner == res.0 && price == res.1 && new_max == res.2);
    let changed = match old_bid {
        Some((w, b)) => !(w == new_winner && b == price),
        None => true,
    };
    let winner_changed = match old_bid {
        Some((w, _)) => w != new_winner,
        None => true,
    };
    let mut refund: Option<NewTransfer> = None;
    let mut reserve: Option<NewTransfer> = None;
    if winner_changed {
        match old_bid {
            Some((w, b)) => {
                if winner_balance > i64::MAX - b {
                    return BidOutcome::Rejected(BidRejection::Overflow);
                }
                let t = TransactionBuilder::new(b, auction.bid_ty.clone(), now);
                let t = t.auction_refund(w, auction);
                match handle.transfer(t) {
                    Ok(row) => {
                        refund = Some(row);
                    },
                    Err(_) => {
                        return BidOutcome::Rejected(BidRejection::Overflow);
                    },
                }
            },
            None => {},
        }
        let ghost m1 = handle@;
        assert(m1[(new_winner.0, auction.bid_ty@)] >= price);
        let t = TransactionBuilder::new(price, auction.bid_ty.clone(), now);
        let t = t.auction_reserve(new_winner, auction);
        match handle.transfer(t) {
            Ok(row) => {
                reserve = Some(row);
            },
            Err(_) => {
                assert(false);
                return BidOutcome::Rejected(BidRejection::NotEnoughFunds);
            },
        }
    } else if changed {
        let current = match old_bid {
            Some((_, b)) => b,
            None => 0,
        };
        assert(price > current);
        assert(m[(new_winner.0, auction.bid_ty@)] >= price - current);
        let t = TransactionBuilder::new(price - current, auction.bid_ty.clone(), now);
        let t = t.auction_reserve(new_winner, auction);
        match handle.transfer(t) {
            Ok(row) => {
                reserve = Some(row);
            },
            Err(_) => {
                assert(false);
                return BidOutcome::Rejected(BidRejection::NotEnoughFunds);
            },
        }
    }
    BidOutcome::Accepted(
        BidAccepted {
            winner: new_winner,
            price,
            max_bid: new_max,
            last_timer_bump: if winner_changed { now } else { auction.last_timer_bump },
            winner_changed,
            refund,
            reserve,
        },
    )
}

/// Against a standing max bid of `X` that its holder can fund, a plain bid
/// of `Y` by someone else: below `X`, the holder keeps the lead at `Y + 1`;
/// equal to `X`, the holder keeps it at `X`; above `X`, the challenger takes
/// the lead at `Y`. Only in the last case does the winning party change, and
/// with it the anti-snipe timer.
pub proof fn lemma_proxy_bid(a: AuctionWinner, challenger: UserId, y: int, holder_balance: int)
    requires
        a.wf(),
        a.max_bid_amt is Some,
        challenger != a.max_bid_user->0,
        holder_balance + a.winner_bid->0 >= a.max_bid_amt->0,
    ensures
        ({
            let x = a.max_bid_amt->0 as int;
            let holder = a.max_bid_user->0;
            let res = bid_resolution(a, challenger, y, false, holder_balance);
            &&& y < x ==> res == (holder, y + 1, Some((holder, x as i64)))
                && a.winner_id == Some(res.0)
            &&& y == x ==> res == (holder, x, Some((holder, x as i64))) && a.winner_id == Some(res.0)
            &&& y > x ==> res == (challenger, y, None::<(UserId, i64)>) && a.winner_id != Some(res.0)
        }),
{
}

/// The result of settling an auction.
pub struct AuctionSettled {
    pub auction_id: i64,
    pub winner: Option<UserId>,
    /// The offered quantity paid out, or zero where nobody bid.
    pub amount: i64,
    pub payout: Option<NewTransfer>,
}

pub enum AuctionSettlement {
    /// The auction is finished already, or its timer has not run out.
    NotDue,
    /// Paying the winner would overflow their balance.
    PayoutOverflow,
    /// The auction is to be marked finished.
    Settled(AuctionSettled),
}

/// Whether the scheduler settles the auction at `now`.
pub open spec fn auction_due(a: AuctionWinner, now: int) -> bool {
    !a.finished && a.last_timer_bump + AUCTION_EXPIRATION < now
}

/// Settles an auction whose timer has run out: the winner, if any, is paid
/// the offered quantity (their reserved bid stays spent); with no winner
/// nothing moves.
pub fn settle_auction(handle: &mut TransferHandler, auction: &AuctionWinner, now: Timestamp) -> (r: AuctionSettlement)
    requires
        old(handle).wf(),
        auction.wf(),
        auction.winner_id is Some ==> old(handle)@.contains_key(((auction.winner_id->0).0, auction.offer_ty@)),
        auction.last_timer_bump <= i64::MAX - AUCTION_EXPIRATION,
    ensures
        final(handle).wf(),
        ({
            let m = old(handle)@;
            let c = auction.offer_ty@;
            match r {
                AuctionSettlement::NotDue => !auction_due(*auction, now as int) && final(handle)@ == m,
                AuctionSettlement::PayoutOverflow => {
                    &&& auction_due(*auction, now as int)
                    &&& auction.winner_id is Some
                    &&& m[((auction.winner_id->0).0, c)] + auction.offer_amt > i64::MAX
                    &&& final(handle)@ == m
                },
                AuctionSettlement::Settled(s) => {
                    &&& auction_due(*auction, now as int)
                    &&& s.auction_id == auction.auction_id
                    &&& s.winner == auction.winner_id
                    &&& match auction.winner_id {
                        None => s.payout is None && s.amount == 0 && final(handle)@ == m,
                        Some(w) => {
                            let t = s.payout->0;
                            &&& s.amount == auction.offer_amt
                            &&& m[(w.0, c)] + auction.offer_amt <= i64::MAX
                            &&& s.payout is Some
                            &&& final(handle)@ == m.insert((w.0, c), m[(w.0, c)] + auction.offer_amt)
                            &&& t.to_user == Some(w)
                            &&& t.from_user is None
                            &&& t.quantity == auction.offer_amt
                            &&& t.ty@ == c
                            &&& t.transfer_ty == TransferType::AuctionPayout
                            &&& t.auction_id == Some(auction.auction_id)
                            &&& t.happened_at == now
                        },
                    }
                },
            }
        }),
{
    if auction.finished || auction.end_at() >= now {
        return AuctionSettlement::NotDue;
    }
    match auction.winner_id {
        None => AuctionSettlement::Settled(
            AuctionSettled { auction_id: auction.auction_id, winner: None, amount: 0, payout: None },
        ),
        Some(w) => {
            let t = TransactionBuilder::new(auction.offer_amt, auction.offer_ty.clone(), now);
            let t = t.auction_payout(w, auction);
            match handle.transfer(t) {
                Ok(row) => AuctionSettlement::Settled(
                    AuctionSettled {
                        auction_id: auction.auction_id,
                        winner: Some(w),
                        amount: auction.offer_amt,
                        payout: Some(row),
                    },
                ),
                Err(_) => AuctionSettlement::PayoutOverflow,
            }
        },
    }
}

/// Whether the scheduled auction planned for `next_auction_at` is to be
/// opened at `now`.
pub fn auto_auction_due(next_auction_at: Timestamp, now: Timestamp) -> (r: bool)
    ensures
        r == (now > next_auction_at),
{
    now > next_auction_at
}

/// The scheduled auction: the community offers one generator for bids in
/// political capital, starting at one.
pub fn new_auto_auction(auction_id: i64, now: Timestamp) -> (r: AuctionWinner)
    ensures
        r.wf(),
        r.auction_id == auction_id,
        r.created_at == now,
        r.auctioneer is None,
        r.offer_ty@ == "gen"@,
        r.offer_amt == 1,
        r.bid_ty@ == "pc"@,
        r.bid_min == 1,
        !r.finished,
        r.last_change == now,
        r.winner_id is None,
        r.winner_bid is None,
        r.winner_bid_at is None,
        r.last_timer_bump == now,
        r.max_bid_user is None,
        r.max_bid_amt is None,
{
    AuctionWinner {
        auction_id,
        created_at: now,
        auctioneer: None,
        offer_ty: crate::models::CurrencyId::gen(),
        offer_amt: 1,
        bid_ty: crate::models::CurrencyId::pc(),
        bid_min: 1,
        finished: false,
        last_change: now,
        winner_id: None,
        winner_bid: None,
        winner_bid_at: None,
        last_timer_bump: now,
        max_bid_user: None,
        max_bid_amt: None,
    }
}

/// A new auction offering `offer_amt` of `offer_ty` for bids in `bid_ty` of
/// at least `bid_min`, with no bid yet. `None` where the offer or the
/// minimum bid is below one.
pub fn new_auction(
    auction_id: i64,
    now: Timestamp,
    auctioneer: Option<i64>,
    offer_ty: crate::models::CurrencyId,
    offer_amt: i64,
    bid_ty: crate::models::CurrencyId,
    bid_min: i64,
) -> (r: Option<AuctionWinner>)
    ensures
        r is Some <==> offer_amt >= 1 && bid_min >= 1,
        r is Some ==> {
            let a = r->0;
            &&& a.wf()
            &&& a.auction_id == auction_id
            &&& a.created_at == now
            &&& a.auctioneer == auctioneer
            &&& a.offer_ty@ == offer_ty@
            &&& a.offer_amt == offer_amt
            &&& a.bid_ty@ == bid_ty@
            &&& a.bid_min == bid_min
            &&& !a.finished
            &&& a.last_change == now
            &&& a.winner_id is None
            &&& a.winner_bid is None
            &&& a.winner_bid_at is None
            &&& a.last_timer_bump == now
            &&& a.max_bid_user is None
            &&& a.max_bid_amt is None
        },
{
    if offer_amt < 1 || bid_min < 1 {
        return None;
    }
    Some(
        AuctionWinner {
            auction_id,
            created_at: now,
            auctioneer,
            offer_ty,
            offer_amt,
            bid_ty,
            bid_min,
            finished: false,
            last_change: now,
            winner_id: None,
            winner_bid: None,
            winner_bid_at: None,
            last_timer_bump: now,
            max_bid_user: None,
            max_bid_amt: None,
        },
    )
}

/// A scheduler pass over `auctions` from the balances `m`: the balances it
/// leaves and, in order, the (auction, winner, amount paid out) of each
/// auction it settles. An auction whose payout would overflow is left for a
/// later pass and does not hold up the others.
pub open spec fn auction_pass(m: Map<(u64, Seq<char>), int>, auctions: Seq<AuctionWinner>, now: int) -> (
    Map<(u64, Seq<char>), int>,
    Seq<(i64, Option<UserId>, i64)>,
)
    decreases auctions.len(),
{
    if auctions.len() == 0 {
        (m, Seq::empty())
    } else {
        let prev = auction_pass(m, auctions.drop_last(), now);
        let a = auctions.last();
        if !auction_due(a, now) {
            prev
        } else {
            match a.winner_id {
                None => (prev.0, prev.1.push((a.auction_id, None, 0i64))),
                Some(w) => {
                    let k = (w.0, a.offer_ty@);
                    if prev.0[k] + a.offer_amt > i64::MAX {
                        prev
                    } else {
                        (prev.0.insert(k, prev.0[k] + a.offer_amt), prev.1.push((a.auction_id, Some(w), a.offer_amt)))
                    }
                },
            }
        }
    }
}

/// One scheduler pass over the unfinished auctions, inside one transaction
/// whose cache holds each winner's balance in the offered currency: settles
/// every auction that is due, each independently of the others.
pub fn settle_expired_auctions(handle: &mut TransferHandler, auctions: &Vec<AuctionWinner>, now: Timestamp) -> (r: Vec<
    AuctionSettled,
>)
    requires
        old(handle).wf(),
        forall|i: int|
            0 <= i < auctions@.len() ==> {
                let a = #[trigger] auctions@[i];
                &&& a.wf()
                &&& a.last_timer_bump <= i64::MAX - AUCTION_EXPIRATION
                &&& a.winner_id is Some ==> old(handle)@.contains_key(((a.winner_id->0).0, a.offer_ty@))
            },
    ensures
        final(handle).wf(),
        final(handle)@ == auction_pass(old(handle)@, auctions@, now as int).0,
        r@.len() == auction_pass(old(handle)@, auctions@, now as int).1.len(),
        forall|i: int|
            0 <= i < r@.len() ==> ((#[trigger] r@[i]).auction_id, r@[i].winner, r@[i].amount) == auction_pass(
                old(handle)@,
                auctions@,
                now as int,
            ).1[i],
{
    let ghost m = handle@;
    let mut out: Vec<AuctionSettled> = Vec::new();
    let mut i: usize = 0;
    while i < auctions.len()
        invariant
            0 <= i <= auctions@.len(),
            handle.wf(),
            m == old(handle)@,
            forall|k: (u64, Seq<char>)| #[trigger] handle@.contains_key(k) == m.contains_key(k),
            forall|j: int|
                0 <= j < auctions@.len() ==> {
                    let a = #[trigger] auctions@[j];
                    &&& a.wf()
                    &&& a.last_timer_bump <= i64::MAX - AUCTION_EXPIRATION
                    &&& a.winner_id is Some ==> m.contains_key(((a.winner_id->0).0, a.offer_ty@))
                },
            handle@ == auction_pass(m, auctions@.subrange(0, i as int), now as int).0,
            out@.len() == auction_pass(m, auctions@.subrange(0, i as int), now as int).1.len(),
            forall|j: int|
                0 <= j < out@.len() ==> ((#[trigger] out@[j]).auction_id, out@[j].winner, out@[j].amount)
                    == auction_pass(m, auctions@.subrange(0, i as int), now as int).1[j],
        decreases auctions@.len() - i,
    {
        let ghost prefix = auctions@.subrange(0, i as int + 1);
        proof {
            assert(prefix.drop_last() =~= auctions@.subrange(0, i as int));
            assert(prefix.last() == auctions@[i as int]);
        }
        let ghost before = out@;
        let ghost prev = auction_pass(m, auctions@.subrange(0, i as int), now as int);
        let ghost a = auctions@[i as int];
        let ghost next = auction_pass(m, prefix, now as int);
        proof {
            assert(next == if !auction_due(a, now as int) {
                prev
            } else {
                match a.winner_id {
                    None => (prev.0, prev.1.push((a.auction_id, None, 0i64))),
                    Some(w) => {
                        let k = (w.0, a.offer_ty@);
                        if prev.0[k] + a.offer_amt > i64::MAX {
                            prev
                        } else {
                            (prev.0.insert(k, prev.0[k] + a.offer_amt), prev.1.push((a.auction_id, Some(w), a.offer_amt)))
                        }
                    },
                }
            });
        }
        match settle_auction(handle, &auctions[i], now) {
            AuctionSettlement::Settled(s) => {
                proof {
                    assert(next.1 == prev.1.push((s.auction_id, s.winner, s.amount)));
                    assert(handle@ == next.0);
                }
                out.push(s);
                proof {
                    assert forall|j: int| 0 <= j < out@.len() implies ((#[trigger] out@[j]).auction_id, out@[j].winner,
                        out@[j].amount) == next.1[j] by {
                        if j < before.len() {
                            assert(out@[j] == before[j]);
                        }
                    }
                }
            },
            _ => {
                proof {
                    assert(next == prev);
                }
            },
        }
        i = i + 1;
    }
    proof {
        assert(auctions@.subrange(0, i as int) =~= auctions@);
    }
    out
}

} // verus!
