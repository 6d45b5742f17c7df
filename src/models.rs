use vstd::prelude::*;

use crate::damm::{add_to_str, all_digit_chars, damm_fold, digit_char, digits_of};

verus! {

/// An instant, in whole seconds since the Unix epoch.
pub type Timestamp = i64;

/// How long an auction runs on after its winner last changed, in seconds.
pub const AUCTION_EXPIRATION: i64 = 172800;

/// How long a motion stays open after its outcome last flipped, in seconds.
pub const MOTION_EXPIRATION: i64 = 345600;

/// The decimal digits of `n`, without sign or leading zeros.
pub open spec fn decimal(n: nat) -> Seq<char>
    decreases n,
{
    if n < 10 {
        seq![digit_char(n as int)]
    } else {
        decimal(n / 10).push(digit_char((n % 10) as int))
    }
}

pub proof fn lemma_decimal_digits(n: nat)
    ensures
        all_digit_chars(decimal(n)),
        decimal(n).len() >= 1,
    decreases n,
{
    if n >= 10 {
        lemma_decimal_digits(n / 10);
    }
}

/// Writes `n` in decimal.
pub(crate) fn u64_to_decimal(n: u64) -> (r: String)
    ensures
        r@ == decimal(n as nat),
    decreases n,
{
    if n < 10 {
        let mut s = String::new();
        s.append(crate::damm::digit_str(n as u8));
        proof {
            assert(s@ =~= decimal(n as nat));
        }
        s
    } else {
        let mut s = u64_to_decimal(n / 10);
        s.append(crate::damm::digit_str((n % 10) as u8));
        proof {
            assert(s@ =~= decimal(n as nat));
        }
        s
    }
}

/// The public form of a row id: its decimal digits followed by their check digit.
pub open spec fn damm_text(id: nat) -> Seq<char> {
    decimal(id).push(digit_char(damm_fold(digits_of(decimal(id)))))
}

/// Writes a non-negative row id with its check digit appended.
pub fn damm_of_id(id: i64) -> (r: String)
    requires
        id >= 0,
    ensures
        r@ == damm_text(id as nat),
{
    let s = u64_to_decimal(id as u64);
    proof {
        lemma_decimal_digits(id as nat);
    }
    add_to_str(s)
}

/// A member of the community, by the chat platform's id.
#[derive(Clone, Copy, Debug, PartialEq, Eq, Structural, PartialOrd, Ord, Hash)]
pub struct UserId(pub u64);

impl UserId {
    /// The id as a database integer; ids above `i64::MAX` are never made.
    pub fn into_i64(self) -> (r: i64)
        requires
            self.0 <= i64::MAX,
        ensures
            r as int == self.0 as int,
    {
        self.0 as i64
    }

    pub fn into_u64(self) -> (r: u64)
        ensures
            r == self.0,
    {
        self.0
    }

    /// A user id from a database integer; negative values are refused.
    pub fn try_from_i64(v: i64) -> (r: Option<UserId>)
        ensures
            r == (if v >= 0 { Some(UserId(v as u64)) } else { None::<UserId> }),
    {
        if v >= 0 {
            Some(UserId(v as u64))
        } else {
            None
        }
    }

    /// A user id from an unsigned integer; values that do not fit a database
    /// integer are refused.
    pub fn try_from_u64(v: u64) -> (r: Option<UserId>)
        ensures
            r == (if v <= i64::MAX as u64 { Some(UserId(v)) } else { None::<UserId> }),
    {
        if v <= i64::MAX as u64 {
            Some(UserId(v))
        } else {
            None
        }
    }

    /// The id in decimal.
    pub fn to_string(&self) -> (r: String)
        ensures
            r@ == decimal(self.0 as nat),
    {
        u64_to_decimal(self.0)
    }
}

/// A currency, by its short code (such as `pc`).
#[derive(Debug)]
pub struct CurrencyId(pub String);

impl View for CurrencyId {
    type V = Seq<char>;

    open spec fn view(&self) -> Seq<char> {
        self.0@
    }
}

impl PartialEq for CurrencyId {
    fn eq(&self, o: &CurrencyId) -> (r: bool) {
        self.0 == o.0
    }
}

impl vstd::std_specs::cmp::PartialEqSpecImpl for CurrencyId {
    open spec fn obeys_eq_spec() -> bool {
        true
    }

    open spec fn eq_spec(&self, o: &CurrencyId) -> bool {
        self@ == o@
    }
}

impl Eq for CurrencyId {
}

impl Clone for CurrencyId {
    fn clone(&self) -> (r: CurrencyId)
        ensures
            r@ == self@,
    {
        CurrencyId(self.0.clone())
    }
}

impl CurrencyId {
    /// Political capital, the currency that votes are bought with.
    pub fn pc() -> (r: CurrencyId)
        ensures
            r@ == "pc"@,
    {
        CurrencyId(String::from_str("pc"))
    }

    /// Generators, whose holders are paid political capital periodically.
    pub fn gen() -> (r: CurrencyId)
        ensures
            r@ == "gen"@,
    {
        CurrencyId(String::from_str("gen"))
    }

    pub fn as_str(&self) -> (r: &str)
        ensures
            r@ == self@,
    {
        self.0.as_str()
    }

    /// Whether two ids name one currency.
    pub fn same(&self, o: &CurrencyId) -> (r: bool)
        ensures
            r == (self@ == o@),
    {
        self.0 == o.0
    }
}

/// A currency together with how it is shown.
pub struct ItemType {
    pub id: CurrencyId,
    pub long_name_plural: String,
    pub long_name_ambiguous: String,
}

impl ItemType {
    pub fn db_name(&self) -> (r: &str)
        ensures
            r@ == self.id@,
    {
        self.id.as_str()
    }
}

/// The kind of a transfer; each kind decides which sides the transfer has.
#[derive(Clone, Copy, Debug, PartialEq, Eq, Structural)]
pub enum TransferType {
    MotionCreate,
    MotionVote,
    Generated,
    AdminFabricate,
    AdminGive,
    Give,
    CommandFabricate,
    AuctionCreate,
    AuctionReserve,
    AuctionRefund,
    AuctionPayout,
}

/// Whether a transfer of this kind takes from a user.
pub open spec fn kind_has_source(t: TransferType) -> bool {
    match t {
        TransferType::MotionCreate | TransferType::MotionVote | TransferType::AdminGive
        | TransferType::Give | TransferType::AuctionCreate | TransferType::AuctionReserve => true,
        _ => false,
    }
}

/// Whether a transfer of this kind gives to a user.
pub open spec fn kind_has_dest(t: TransferType) -> bool {
    match t {
        TransferType::Generated | TransferType::AdminFabricate | TransferType::CommandFabricate
        | TransferType::AdminGive | TransferType::Give | TransferType::AuctionRefund
        | TransferType::AuctionPayout => true,
        _ => false,
    }
}

/// One user's standing votes on one motion.
#[derive(Clone, Copy, Debug)]
pub struct MotionVote {
    pub user: UserId,
    pub direction: bool,
    pub amount: i64,
}

/// An auction together with its current winner and standing max bid, as the
/// database view joins them.
pub struct AuctionWinner {
    pub auction_id: i64,
    pub created_at: Timestamp,
    pub auctioneer: Option<i64>,
    pub offer_ty: CurrencyId,
    pub offer_amt: i64,
    pub bid_ty: CurrencyId,
    pub bid_min: i64,
    pub finished: bool,
    pub last_change: Timestamp,
    pub winner_id: Option<UserId>,
    pub winner_bid: Option<i64>,
    pub winner_bid_at: Option<Timestamp>,
    pub last_timer_bump: Timestamp,
    pub max_bid_user: Option<UserId>,
    pub max_bid_amt: Option<i64>,
}

/// A standing authorization to out-bid challengers up to `amount`.
pub struct MaxBid {
    pub user: UserId,
    pub currency: CurrencyId,
    pub amount: i64,
}

impl AuctionWinner {
    /// The shape every stored auction has: a winner comes with a bid, a max
    /// bid with its holder, who is the current winner, a max bid is at least
    /// the current price, and amounts are not negative.
    pub open spec fn wf(&self) -> bool {
        &&& self.winner_id is Some <==> self.winner_bid is Some
        &&& self.max_bid_amt is Some <==> self.max_bid_user is Some
        &&& self.max_bid_user is Some ==> self.max_bid_user == self.winner_id
        &&& self.bid_min >= 0
        &&& self.offer_amt >= 0
        &&& self.winner_bid is Some ==> 0 <= self.winner_bid->0 < i64::MAX
        &&& self.max_bid_amt is Some ==> self.max_bid_amt->0 >= 0
        &&& self.max_bid_amt is Some ==> self.max_bid_amt->0 >= self.winner_bid->0
    }

    /// The least amount a new bid must reach.
    pub open spec fn spec_min_bid(&self) -> int {
        match self.winner_bid {
            Some(b) => b + 1,
            None => self.bid_min as int,
        }
    }

    pub fn current_min_bid(&self) -> (r: i64)
        requires
            self.winner_bid is Some ==> self.winner_bid->0 < i64::MAX,
        ensures
            r as int == self.spec_min_bid(),
    {
        match self.winner_bid {
            Some(b) => b + 1,
            None => self.bid_min,
        }
    }

    /// The instant after which the auction can be settled.
    pub fn end_at(&self) -> (r: Timestamp)
        requires
            self.last_timer_bump <= i64::MAX - AUCTION_EXPIRATION,
        ensures
            r as int == self.last_timer_bump + AUCTION_EXPIRATION,
    {
        self.last_timer_bump + AUCTION_EXPIRATION
    }

    /// The auction's public id, with its check digit.
    pub fn damm(&self) -> (r: String)
        requires
            self.auction_id >= 0,
        ensures
            r@ == damm_text(self.auction_id as nat),
    {
        damm_of_id(self.auction_id)
    }

    pub fn winner(&self) -> (r: Option<(UserId, i64)>)
        requires
            self.wf(),
        ensures
            r == (match self.winner_id {
                Some(w) => Some((w, self.winner_bid->0)),
                None => None::<(UserId, i64)>,
            }),
    {
        match self.winner_id {
            Some(w) => match self.winner_bid {
                Some(b) => Some((w, b)),
                None => None,
            },
            None => None,
        }
    }

    pub fn max_bid(&self) -> (r: Option<MaxBid>)
        requires
            self.wf(),
        ensures
            r is Some <==> self.max_bid_amt is Some,
            r is Some ==> r->0.user == self.max_bid_user->0 && r->0.currency@ == self.bid_ty@
                && r->0.amount == self.max_bid_amt->0,
    {
        match self.max_bid_amt {
            Some(amount) => match self.max_bid_user {
                Some(user) => Some(MaxBid { user, currency: self.bid_ty.clone(), amount }),
                None => None,
            },
            None => None,
        }
    }
}

impl AuctionWinner {
    /// Who offered the goods: a user's name, or the community itself.
    pub fn auctioneer_name(&self) -> (r: String)
        ensures
            self.auctioneer is Some && self.auctioneer->0 >= 0 ==> r@ == match crate::names::known_name(self.auctioneer->0 as u64) {
                Some(n) => n,
                None => decimal(self.auctioneer->0 as nat),
            },
            self.auctioneer is None ==> r@ == "The CONsortium"@,
    {
        match self.auctioneer {
            Some(a) => crate::names::name_of(UserId(a as u64)),
            None => String::from_str("The CONsortium"),
        }
    }
}

/// A transfer row as stored: a wide row whose optional columns are filled
/// according to its kind.
pub struct RawTransfer {
    pub rowid: i64,
    pub ty: CurrencyId,
    pub from_user: Option<UserId>,
    pub quantity: i64,
    pub to_user: Option<UserId>,
    pub from_balance: Option<i64>,
    pub to_balance: Option<i64>,
    pub happened_at: Timestamp,
    pub message_id: Option<i64>,
    pub to_motion: Option<i64>,
    pub to_votes: Option<i64>,
    pub comment: Option<String>,
    pub transfer_ty: TransferType,
    pub auction_id: Option<i64>,
}

/// One side of a transfer: the user and the balance it left them with.
pub struct UserBal {
    pub user: UserId,
    pub ty: CurrencyId,
    pub bal: i64,
}

/// The kind of a transfer with the payload that kind carries.
pub enum TransferExtra {
    Motion { from: UserBal, motion_id: i64, votes: i64, created: bool },
    ThinAir { to: UserBal, generated: bool },
    Give { to: UserBal, from: UserBal, admin: bool },
    AuctionCreate { auction_id: i64, from: UserBal },
    AuctionReserve { auction_id: i64, from: UserBal },
    AuctionRefund { auction_id: i64, to: UserBal },
    AuctionPayout { auction_id: i64, to: UserBal },
}

/// A transfer row read into its typed form.
pub struct Transfer {
    pub rowid: i64,
    pub ty: CurrencyId,
    pub happened_at: Timestamp,
    pub message_id: Option<i64>,
    pub quantity: i64,
    pub comment: Option<String>,
    pub extra: TransferExtra,
}

/// Whether a row carries a source: a user and the balance left to them.
pub open spec fn raw_has_from(r: RawTransfer) -> bool {
    r.from_user is Some && r.from_balance is Some
}

pub open spec fn raw_has_to(r: RawTransfer) -> bool {
    r.to_user is Some && r.to_balance is Some
}

/// Whether a row holds every column its kind needs.
pub open spec fn raw_complete(r: RawTransfer) -> bool {
    match r.transfer_ty {
        TransferType::MotionCreate | TransferType::MotionVote => raw_has_from(r) && r.to_motion is Some
            && r.to_votes is Some,
        TransferType::Generated | TransferType::AdminFabricate | TransferType::CommandFabricate => raw_has_to(r),
        TransferType::Give | TransferType::AdminGive => raw_has_from(r) && raw_has_to(r),
        TransferType::AuctionCreate | TransferType::AuctionReserve => raw_has_from(r) && r.auction_id is Some,
        TransferType::AuctionRefund | TransferType::AuctionPayout => raw_has_to(r) && r.auction_id is Some,
    }
}

/// Whether `b` is the side `(user, bal)` of a transfer in currency `ty`.
pub open spec fn is_side(b: UserBal, user: Option<UserId>, bal: Option<i64>, ty: Seq<char>) -> bool {
    b.user == user->0 && b.bal == bal->0 && b.ty@ == ty
}

/// Whether `e` is the typed payload of the row `r`.
pub open spec fn extra_of(r: RawTransfer, e: TransferExtra) -> bool {
    let t = r.ty@;
    match e {
        TransferExtra::Motion { from, motion_id, votes, created } => {
            &&& (r.transfer_ty == TransferType::MotionCreate || r.transfer_ty == TransferType::MotionVote)
            &&& is_side(from, r.from_user, r.from_balance, t)
            &&& motion_id == r.to_motion->0
            &&& votes == r.to_votes->0
            &&& created == (r.transfer_ty == TransferType::MotionCreate)
        },
        TransferExtra::ThinAir { to, generated } => {
            &&& (r.transfer_ty == TransferType::Generated || r.transfer_ty == TransferType::AdminFabricate
                || r.transfer_ty == TransferType::CommandFabricate)
            &&& is_side(to, r.to_user, r.to_balance, t)
            &&& generated == (r.transfer_ty == TransferType::Generated)
        },
        TransferExtra::Give { to, from, admin } => {
            &&& (r.transfer_ty == TransferType::Give || r.transfer_ty == TransferType::AdminGive)
            &&& is_side(from, r.from_user, r.from_balance, t)
            &&& is_side(to, r.to_user, r.to_balance, t)
            &&& admin == (r.transfer_ty == TransferType::AdminGive)
        },
        TransferExtra::AuctionCreate { auction_id, from } => r.transfer_ty == TransferType::AuctionCreate
            && is_side(from, r.from_user, r.from_balance, t) && auction_id == r.auction_id->0,
        TransferExtra::AuctionReserve { auction_id, from } => r.transfer_ty == TransferType::AuctionReserve
            && is_side(from, r.from_user, r.from_balance, t) && auction_id == r.auction_id->0,
        TransferExtra::AuctionRefund { auction_id, to } => r.transfer_ty == TransferType::AuctionRefund
            && is_side(to, r.to_user, r.to_balance, t) && auction_id == r.auction_id->0,
        TransferExtra::AuctionPayout { auction_id, to } => r.transfer_ty == TransferType::AuctionPayout
            && is_side(to, r.to_user, r.to_balance, t) && auction_id == r.auction_id->0,
    }
}

impl RawTransfer {
    fn from(&self) -> (r: Option<UserBal>)
        ensures
            r is Some <==> raw_has_from(*self),
            r is Some ==> is_side(r->0, self.from_user, self.from_balance, self.ty@),
    {
        match (self.from_user, self.from_balance) {
            (Some(user), Some(bal)) => Some(UserBal { user, ty: self.ty.clone(), bal }),
            _ => None,
        }
    }

    fn to(&self) -> (r: Option<UserBal>)
        ensures
            r is Some <==> raw_has_to(*self),
            r is Some ==> is_side(r->0, self.to_user, self.to_balance, self.ty@),
    {
        match (self.to_user, self.to_balance) {
            (Some(user), Some(bal)) => Some(UserBal { user, ty: self.ty.clone(), bal }),
            _ => None,
        }
    }
}

impl Transfer {
    /// Reads a stored row into its typed form; `None` where the row lacks a
    /// column that its kind requires.
    pub fn from_raw(r: RawTransfer) -> (t: Option<Transfer>)
        ensures
            t is Some <==> raw_complete(r),
            t is Some ==> {
                let v = t->0;
                &&& v.rowid == r.rowid
                &&& v.ty@ == r.ty@
                &&& v.happened_at == r.happened_at
                &&& v.message_id == r.message_id
                &&& v.quantity == r.quantity
                &&& v.comment == r.comment
                &&& extra_of(r, v.extra)
            },
    {
        let kind = r.transfer_ty;
        let extra = match kind {
            TransferType::MotionCreate | TransferType::MotionVote => match (r.from(), r.to_motion, r.to_votes) {
                (Some(from), Some(motion_id), Some(votes)) => TransferExtra::Motion {
                    from,
                    motion_id,
                    votes,
                    created: matches!(kind, TransferType::MotionCreate),
                },
                _ => {
                    return None;
                },
            },
            TransferType::Generated | TransferType::AdminFabricate | TransferType::CommandFabricate => match r.to() {
                Some(to) => TransferExtra::ThinAir { to, generated: matches!(kind, TransferType::Generated) },
                None => {
                    return None;
                },
            },
            TransferType::Give | TransferType::AdminGive => match (r.from(), r.to()) {
                (Some(from), Some(to)) => TransferExtra::Give {
                    to,
                    from,
                    admin: matches!(kind, TransferType::AdminGive),
                },
                _ => {
                    return None;
                },
            },
            TransferType::AuctionCreate => match (r.from(), r.auction_id) {
                (Some(from), Some(auction_id)) => TransferExtra::AuctionCreate { auction_id, from },
                _ => {
                    return None;
                },
            },
            TransferType::AuctionReserve => match (r.from(), r.auction_id) {
                (Some(from), Some(auction_id)) => TransferExtra::AuctionReserve { auction_id, from },
                _ => {
                    return None;
                },
            },
            TransferType::AuctionRefund => match (r.to(), r.auction_id) {
                (Some(to), Some(auction_id)) => TransferExtra::AuctionRefund { auction_id, to },
                _ => {
                    return None;
                },
            },
            TransferType::AuctionPayout => match (r.to(), r.auction_id) {
                (Some(to), Some(auction_id)) => TransferExtra::AuctionPayout { auction_id, to },
                _ => {
                    return None;
                },
            },
        };
        Some(
            Transfer {
                rowid: r.rowid,
                ty: r.ty,
                happened_at: r.happened_at,
                message_id: r.message_id,
                quantity: r.quantity,
                comment: r.comment,
                extra,
            },
        )
    }
}

} // verus!
