use vstd::prelude::*;

use crate::models::{AuctionWinner, CurrencyId, Timestamp, TransferType, UserId};

verus! {

/// A transfer waiting to be handed to a `TransferHandler`.
pub struct TransactionBuilder {
    pub currency_ty: CurrencyId,
    pub source: Option<UserId>,
    pub quantity: i64,
    pub dest: Option<UserId>,
    pub happened_at: Timestamp,
    pub message_id: Option<i64>,
    pub to_motion: Option<i64>,
    pub to_votes: Option<i64>,
    pub comment: Option<String>,
    pub transfer_ty: Option<TransferType>,
    pub auction_id: Option<i64>,
}

impl TransactionBuilder {
    pub fn new(quantity: i64, currency: CurrencyId, happened_at: Timestamp) -> (r: Self)
        ensures
            r.quantity == quantity,
            r.currency_ty@ == currency@,
            r.happened_at == happened_at,
            r.source is None,
            r.dest is None,
            r.message_id is None,
            r.to_motion is None,
            r.to_votes is None,
            r.comment is None,
            r.transfer_ty is None,
            r.auction_id is None,
    {
        TransactionBuilder {
            currency_ty: currency,
            source: None,
            quantity,
            dest: None,
            happened_at,
            message_id: None,
            to_motion: None,
            to_votes: None,
            comment: None,
            transfer_ty: None,
            auction_id: None,
        }
    }

    /// A transfer between two users.
    pub fn give(self, source: UserId, dest: UserId, admin: bool) -> (r: Self)
        requires
            self.transfer_ty is None,
        ensures
            r == (TransactionBuilder {
                source: Some(source),
                dest: Some(dest),
                transfer_ty: Some(if admin { TransferType::AdminGive } else { TransferType::Give }),
                ..self
            }),
    {
        TransactionBuilder {
            source: Some(source),
            dest: Some(dest),
            transfer_ty: Some(if admin { TransferType::AdminGive } else { TransferType::Give }),
            ..self
        }
    }

    /// Payment for votes on a motion, or for creating one.
    pub fn motion(self, source: UserId, motion_id: i64, num_votes: i64, create: bool) -> (r: Self)
        requires
            self.transfer_ty is None,
        ensures
            r == (TransactionBuilder {
                source: Some(source),
                to_motion: Some(motion_id),
                to_votes: Some(num_votes),
                transfer_ty: Some(
                    if create { TransferType::MotionCreate } else { TransferType::MotionVote },
                ),
                ..self
            }),
    {
        TransactionBuilder {
            source: Some(source),
            to_motion: Some(motion_id),
            to_votes: Some(num_votes),
            transfer_ty: Some(
                if create { TransferType::MotionCreate } else { TransferType::MotionVote },
            ),
            ..self
        }
    }

    /// New currency created for a user.
    pub fn fabricate(self, dest: UserId, generated: bool) -> (r: Self)
        requires
            self.transfer_ty is None,
        ensures
            r == (TransactionBuilder {
                dest: Some(dest),
                transfer_ty: Some(
                    if generated { TransferType::Generated } else { TransferType::AdminFabricate },
                ),
                ..self
            }),
    {
        TransactionBuilder {
            dest: Some(dest),
            transfer_ty: Some(
                if generated { TransferType::Generated } else { TransferType::AdminFabricate },
            ),
            ..self
        }
    }

    /// Funds held against a bid on an auction.
    pub fn auction_reserve(self, source: UserId, auction: &AuctionWinner) -> (r: Self)
        requires
            self.transfer_ty is None,
            self.currency_ty@ == auction.bid_ty@,
        ensures
            r == (TransactionBuilder {
                source: Some(source),
                auction_id: Some(auction.auction_id),
                transfer_ty: Some(TransferType::AuctionReserve),
                ..self
            }),
    {
        TransactionBuilder {
            source: Some(source),
            auction_id: Some(auction.auction_id),
            transfer_ty: Some(TransferType::AuctionReserve),
            ..self
        }
    }

    /// Held funds returned to an out-bid user.
    pub fn auction_refund(self, dest: UserId, auction: &AuctionWinner) -> (r: Self)
        requires
            self.transfer_ty is None,
            self.currency_ty@ == auction.bid_ty@,
        ensures
            r == (TransactionBuilder {
                dest: Some(dest),
                auction_id: Some(auction.auction_id),
                transfer_ty: Some(TransferType::AuctionRefund),
                ..self
            }),
    {
        TransactionBuilder {
            dest: Some(dest),
            auction_id: Some(auction.auction_id),
            transfer_ty: Some(TransferType::AuctionRefund),
            ..self
        }
    }

    /// The offered goods paid to an auction's winner.
    pub fn auction_payout(self, dest: UserId, auction: &AuctionWinner) -> (r: Self)
        requires
            self.transfer_ty is None,
            self.currency_ty@ == auction.offer_ty@,
            auction.winner_id == Some(dest),
        ensures
            r == (TransactionBuilder {
                dest: Some(dest),
                auction_id: Some(auction.auction_id),
                transfer_ty: Some(TransferType::AuctionPayout),
                ..self
            }),
    {
        TransactionBuilder {
            dest: Some(dest),
            auction_id: Some(auction.auction_id),
            transfer_ty: Some(TransferType::AuctionPayout),
            ..self
        }
    }

    /// Records the chat message that asked for the transfer.
    pub fn message_id_raw(self, message_id: i64) -> (r: Self)
        ensures
            r == (TransactionBuilder { message_id: Some(message_id), ..self }),
    {
        TransactionBuilder { message_id: Some(message_id), ..self }
    }
}

#[derive(Clone, Copy, Debug, PartialEq, Eq, Structural)]
pub enum TransferError {
    NotEnough,
    Overflow,
}

/// The row that a successful transfer appends to the transfer log.
pub struct NewTransfer {
    pub ty: CurrencyId,
    pub from_user: Option<UserId>,
    pub from_balance: Option<i64>,
    pub quantity: i64,
    pub to_user: Option<UserId>,
    pub to_balance: Option<i64>,
    pub happened_at: Timestamp,
    pub message_id: Option<i64>,
    pub to_motion: Option<i64>,
    pub to_votes: Option<i64>,
    pub comment: Option<String>,
    pub transfer_ty: TransferType,
    pub auction_id: Option<i64>,
}

/// The balance of one user in one currency, as locked for a transaction.
pub struct BalanceEntry {
    pub user: UserId,
    pub currency: CurrencyId,
    pub balance: i64,
}

/// A (user, currency) pair as the contracts see it.
pub type BalanceKey = (u64, Seq<char>);

pub open spec fn key_of(e: BalanceEntry) -> BalanceKey {
    (e.user.0, e.currency@)
}

pub open spec fn has_key(s: Seq<BalanceEntry>, k: BalanceKey) -> bool {
    exists|i: int| 0 <= i < s.len() && key_of(s[i]) == k
}

pub open spec fn keys_unique(s: Seq<BalanceEntry>) -> bool {
    forall|i: int, j: int|
        0 <= i < s.len() && 0 <= j < s.len() && i != j ==> key_of(s[i]) != key_of(s[j])
}

/// The balances of a list of entries with distinct keys, as a map.
pub open spec fn balance_map(s: Seq<BalanceEntry>) -> Map<BalanceKey, int> {
    Map::new(
        |k: BalanceKey| has_key(s, k),
        |k: BalanceKey| s[choose|i: int| 0 <= i < s.len() && key_of(s[i]) == k].balance as int,
    )
}

/// The sum of the balances held in currency `c`.
pub open spec fn currency_total(s: Seq<BalanceEntry>, c: Seq<char>) -> int
    decreases s.len(),
{
    if s.len() == 0 {
        0
    } else {
        currency_total(s.drop_last(), c) + if s.last().currency@ == c {
            s.last().balance as int
        } else {
            0
        }
    }
}

/// What a transfer of `q` in currency `cur` from `src` to `dst` does to the
/// balances `m`: the debit comes first, then the credit.
pub open spec fn apply_transfer(
    m: Map<BalanceKey, int>,
    src: Option<UserId>,
    dst: Option<UserId>,
    cur: Seq<char>,
    q: int,
) -> Result<Map<BalanceKey, int>, TransferError> {
    let m1 = match src {
        Some(s) => m.insert((s.0, cur), m[(s.0, cur)] - q),
        None => m,
    };
    if src is Some && m[((src->0).0, cur)] < q {
        Err(TransferError::NotEnough)
    } else if dst is Some && m1[((dst->0).0, cur)] + q > i64::MAX {
        Err(TransferError::Overflow)
    } else {
        Ok(
            match dst {
                Some(d) => m1.insert((d.0, cur), m1[(d.0, cur)] + q),
                None => m1,
            },
        )
    }
}

/// The in-memory balance cache of one database transaction. Every balance a
/// transaction touches is locked and loaded into it first; transfers then read
/// and update the cache only.
pub struct TransferHandler {
    entries: Vec<BalanceEntry>,
    /// Per currency, the sum of the snapshots loaded.
    loaded: Ghost<spec_fn(Seq<char>) -> int>,
    /// Per currency, what transfers created (credits without a debit) less
    /// what they destroyed (debits without a credit).
    created: Ghost<spec_fn(Seq<char>) -> int>,
}

impl View for TransferHandler {
    type V = Map<BalanceKey, int>;

    closed spec fn view(&self) -> Map<BalanceKey, int> {
        balance_map(self.entries@)
    }
}

proof fn lemma_map_at(s: Seq<BalanceEntry>, i: int)
    requires
        keys_unique(s),
        0 <= i < s.len(),
    ensures
        balance_map(s).contains_key(key_of(s[i])),
        balance_map(s)[key_of(s[i])] == s[i].balance as int,
{
    let k = key_of(s[i]);
    assert(has_key(s, k));
    let j = choose|j: int| 0 <= j < s.len() && key_of(s[j]) == k;
    assert(j == i);
}

proof fn lemma_update(s: Seq<BalanceEntry>, i: int, e: BalanceEntry)
    requires
        keys_unique(s),
        0 <= i < s.len(),
        key_of(e) == key_of(s[i]),
    ensures
        keys_unique(s.update(i, e)),
        balance_map(s.update(i, e)) == balance_map(s).insert(key_of(e), e.balance as int),
{
    let t = s.update(i, e);
    assert(keys_unique(t));
    lemma_map_at(s, i);
    assert forall|k: BalanceKey| #[trigger] has_key(t, k) == has_key(s, k) by {
        if has_key(s, k) {
            let j = choose|j: int| 0 <= j < s.len() && key_of(s[j]) == k;
            assert(key_of(t[j]) == k);
        }
        if has_key(t, k) {
            let j = choose|j: int| 0 <= j < t.len() && key_of(t[j]) == k;
            assert(key_of(s[j]) == k);
        }
    }
    assert forall|k: BalanceKey| has_key(t, k) implies balance_map(t)[k] == balance_map(s).insert(
        key_of(e),
        e.balance as int,
    )[k] by {
        let j = choose|j: int| 0 <= j < t.len() && key_of(t[j]) == k;
        lemma_map_at(t, j);
        if j != i {
            lemma_map_at(s, j);
        }
    }
    assert(balance_map(t) =~= balance_map(s).insert(key_of(e), e.balance as int));
}

proof fn lemma_total_update(s: Seq<BalanceEntry>, i: int, e: BalanceEntry, c: Seq<char>)
    requires
        0 <= i < s.len(),
        e.currency@ == s[i].currency@,
    ensures
        currency_total(s.update(i, e), c) == currency_total(s, c) + if s[i].currency@ == c {
            e.balance - s[i].balance
        } else {
            0
        },
    decreases s.len(),
{
    let t = s.update(i, e);
    if i == s.len() - 1 {
        assert(t.drop_last() =~= s.drop_last());
    } else {
        assert(t.drop_last() =~= s.drop_last().update(i, e));
        lemma_total_update(s.drop_last(), i, e, c);
    }
}

impl TransferHandler {
    /// Keys are distinct and no balance is negative.
    pub closed spec fn wf(&self) -> bool {
        &&& self.entries_wf()
        &&& forall|c: Seq<char>| #[trigger] currency_total(self.entries@, c) == (self.loaded@)(c) + (self.created@)(c)
    }

    spec fn entries_wf(&self) -> bool {
        &&& keys_unique(self.entries@)
        &&& forall|i: int| 0 <= i < self.entries@.len() ==> self.entries@[i].balance >= 0
    }

    /// The sum of the snapshots loaded in currency `c`.
    pub closed spec fn loaded(&self, c: Seq<char>) -> int {
        (self.loaded@)(c)
    }

    /// What the transfers applied so far created in currency `c`, less what
    /// they destroyed.
    pub closed spec fn created(&self, c: Seq<char>) -> int {
        (self.created@)(c)
    }

    /// The sum of the cached balances in currency `c`.
    pub closed spec fn total(&self, c: Seq<char>) -> int {
        currency_total(self.entries@, c)
    }

    /// A cache that holds no balance yet.
    pub fn new() -> (r: TransferHandler)
        ensures
            r.wf(),
            r@ == Map::<BalanceKey, int>::empty(),
            forall|c: Seq<char>| r.total(c) == 0 && r.loaded(c) == 0 && r.created(c) == 0,
    {
        let r = TransferHandler {
            entries: Vec::new(),
            loaded: Ghost(|c: Seq<char>| 0int),
            created: Ghost(|c: Seq<char>| 0int),
        };
        assert(r@ =~= Map::<BalanceKey, int>::empty());
        r
    }

    fn find(&self, user: UserId, currency: &CurrencyId) -> (r: Option<usize>)
        requires
            self.wf(),
        ensures
            r is None <==> !self@.contains_key((user.0, currency@)),
            r is Some ==> r->0 < self.entries@.len() && key_of(self.entries@[r->0 as int]) == (
                user.0,
                currency@,
            ),
    {
        let mut i: usize = 0;
        while i < self.entries.len()
            invariant
                0 <= i <= self.entries@.len(),
                forall|j: int| 0 <= j < i ==> key_of(self.entries@[j]) != (user.0, currency@),
            decreases self.entries@.len() - i,
        {
            if self.entries[i].user.0 == user.0 && self.entries[i].currency.same(currency) {
                return Some(i);
            }
            i = i + 1;
        }
        None
    }

    /// Loads the latest balance snapshot of a (user, currency) pair, as read
    /// under a row lock; a pair with no transfer yet starts at zero. Returns
    /// whether the whole transfer table must be locked, which is the case when
    /// there was no row to lock. A pair that is already loaded is left as it is.
    pub fn add_snapshot(&mut self, user: UserId, currency: CurrencyId, latest: Option<i64>) -> (needs_table_lock: bool)
        requires
            old(self).wf(),
            latest is Some ==> latest->0 >= 0,
        ensures
            final(self).wf(),
            needs_table_lock == (latest is None),
            old(self)@.contains_key((user.0, currency@)) ==> final(self)@ == old(self)@
                && forall|c: Seq<char>| final(self).total(c) == old(self).total(c),
            !old(self)@.contains_key((user.0, currency@)) ==> final(self)@ == old(self)@.insert(
                (user.0, currency@),
                match latest {
                    Some(b) => b as int,
                    None => 0,
                },
            ) && forall|c: Seq<char>| #[trigger] final(self).total(c) == old(self).total(c) + if currency@ == c {
                match latest {
                    Some(b) => b as int,
                    None => 0,
                }
            } else {
                0
            },
            forall|c: Seq<char>| #[trigger] final(self).created(c) == old(self).created(c),
            forall|c: Seq<char>| #[trigger] final(self).loaded(c) == old(self).loaded(c) + if !old(self)@.contains_key((user.0, currency@)) && currency@ == c {
                match latest {
                    Some(b) => b as int,
                    None => 0,
                }
            } else {
                0
            },
    {
        let bal: i64 = match latest {
            Some(b) => b,
            None => 0,
        };
        match self.find(user, &currency) {
            Some(_) => {},
            None => {
                let ghost s = self.entries@;
                let ghost cur = currency@;
                let ghost prev = self.loaded@;
                let e = BalanceEntry { user, currency, balance: bal };
                self.entries.push(e);
                self.loaded = Ghost(|c: Seq<char>| prev(c) + if c == cur { bal as int } else { 0 });
                proof {
                    assert(self.entries@.drop_last() =~= s);
                    assert forall|c: Seq<char>| #[trigger] currency_total(self.entries@, c) == (self.loaded@)(c) + (self.created@)(c) by {
                        assert(currency_total(s, c) == prev(c) + (self.created@)(c));
                    }
                }
                proof {
                    let t = self.entries@;
                    assert(t.drop_last() =~= s);
                    assert(keys_unique(t)) by {
                        assert forall|i: int, j: int|
                            0 <= i < t.len() && 0 <= j < t.len() && i != j implies key_of(t[i])
                            != key_of(t[j]) by {
                            if i == s.len() as int {
                                assert(!has_key(s, key_of(t[i])));
                            } else if j == s.len() as int {
                                assert(!has_key(s, key_of(t[j])));
                            }
                        }
                    }
                    assert forall|k: BalanceKey| #[trigger] has_key(t, k) == (has_key(s, k) || k
                        == key_of(e)) by {
                        if has_key(s, k) {
                            let j = choose|j: int| 0 <= j < s.len() && key_of(s[j]) == k;
                            assert(key_of(t[j]) == k);
                        }
                        if k == key_of(e) {
                            assert(key_of(t[s.len() as int]) == k);
                        }
                    }
                    assert forall|k: BalanceKey| has_key(t, k) implies balance_map(t)[k]
                        == balance_map(s).insert(key_of(e), bal as int)[k] by {
                        let j = choose|j: int| 0 <= j < t.len() && key_of(t[j]) == k;
                        lemma_map_at(t, j);
                        if j != s.len() {
                            lemma_map_at(s, j);
                        }
                    }
                    assert(balance_map(t) =~= balance_map(s).insert(key_of(e), bal as int));
                }
            },
        }
        latest.is_none()
    }

    /// The cached balance of a loaded pair.
    pub fn balance(&self, user: UserId, currency: &CurrencyId) -> (r: i64)
        requires
            self.wf(),
            self@.contains_key((user.0, currency@)),
        ensures
            r as int == self@[(user.0, currency@)],
            r >= 0,
    {
        match self.find(user, currency) {
            Some(i) => {
                proof {
                    lemma_map_at(self.entries@, i as int);
                }
                self.entries[i].balance
            },
            None => 0,
        }
    }

    fn set_balance(&mut self, i: usize, bal: i64)
        requires
            old(self).entries_wf(),
            i < old(self).entries@.len(),
            bal >= 0,
        ensures
            final(self).entries_wf(),
            final(self).loaded == old(self).loaded,
            final(self).created == old(self).created,
            final(self).entries@.len() == old(self).entries@.len(),
            forall|k: int| 0 <= k < final(self).entries@.len() ==> key_of(final(self).entries@[k]) == key_of(old(self).entries@[k]),
            final(self).entries@[i as int].balance == bal,
            forall|k: int| 0 <= k < final(self).entries@.len() && k != i ==> final(self).entries@[k].balance == old(self).entries@[k].balance,
            final(self)@ == old(self)@.insert(key_of(old(self).entries@[i as int]), bal as int),
            forall|c: Seq<char>| #[trigger] final(self).total(c) == old(self).total(c) + if old(self).entries@[i as int].currency@ == c {
                bal - old(self).entries@[i as int].balance
            } else {
                0
            },
    {
        let e = BalanceEntry {
            user: self.entries[i].user,
            currency: self.entries[i].currency.clone(),
            balance: bal,
        };
        let ghost s = self.entries@;
        proof {
            lemma_update(s, i as int, e);
            assert forall|c: Seq<char>| currency_total(s.update(i as int, e), c) == currency_total(s, c) + if s[i as int].currency@ == c {
                bal - s[i as int].balance
            } else {
                0
            } by {
                lemma_total_update(s, i as int, e, c);
            }
        }
        self.entries.set(i, e);
        proof {
            assert(self.entries@ =~= s.update(i as int, e));
        }
    }

    /// Applies one transfer to the cache: the source, if any, is debited and
    /// the destination, if any, credited. Fails with `NotEnough` where the
    /// source holds less than the quantity, and with `Overflow` where the
    /// credit would pass `i64::MAX`; on failure nothing changes. On success
    /// the row to append to the transfer log is returned, with the balances
    /// that each side was left with.
    pub fn transfer(&mut self, t: TransactionBuilder) -> (r: Result<NewTransfer, TransferError>)
        requires
            old(self).wf(),
            t.transfer_ty is Some,
            t.quantity >= 0,
            t.source is Some ==> old(self)@.contains_key(((t.source->0).0, t.currency_ty@)),
            t.dest is Some ==> old(self)@.contains_key(((t.dest->0).0, t.currency_ty@)),
        ensures
            final(self).wf(),
            r is Ok <==> apply_transfer(old(self)@, t.source, t.dest, t.currency_ty@, t.quantity as int) is Ok,
            r is Err ==> r->Err_0 == apply_transfer(old(self)@, t.source, t.dest, t.currency_ty@, t.quantity as int)->Err_0
                && final(self)@ == old(self)@
                && forall|c: Seq<char>| final(self).total(c) == old(self).total(c)
                    && final(self).created(c) == old(self).created(c),
            forall|c: Seq<char>| #[trigger] final(self).loaded(c) == old(self).loaded(c),
            r is Ok ==> {
                let row = r->Ok_0;
                &&& final(self)@ == apply_transfer(old(self)@, t.source, t.dest, t.currency_ty@, t.quantity as int)->Ok_0
                &&& row.ty@ == t.currency_ty@
                &&& row.from_user == t.source
                &&& row.to_user == t.dest
                &&& row.quantity == t.quantity
                &&& row.happened_at == t.happened_at
                &&& row.message_id == t.message_id
                &&& row.to_motion == t.to_motion
                &&& row.to_votes == t.to_votes
                &&& row.comment == t.comment
                &&& row.auction_id == t.auction_id
                &&& row.transfer_ty == t.transfer_ty->0
                &&& row.from_balance is Some <==> t.source is Some
                &&& t.source is Some ==> row.from_balance->0 == old(self)@[((t.source->0).0, t.currency_ty@)] - t.quantity
                &&& t.source is Some ==> row.from_balance->0 >= 0
                &&& row.to_balance is Some <==> t.dest is Some
                &&& t.dest is Some ==> row.to_balance->0 == final(self)@[((t.dest->0).0, t.currency_ty@)]
                &&& forall|c: Seq<char>| #[trigger] final(self).total(c) == old(self).total(c) + if c == t.currency_ty@ {
                    (if t.dest is Some { t.quantity as int } else { 0 }) - (if t.source is Some { t.quantity as int } else { 0 })
                } else {
                    0
                }
                &&& forall|c: Seq<char>| #[trigger] final(self).created(c) == old(self).created(c) + if c == t.currency_ty@ {
                    (if t.dest is Some { t.quantity as int } else { 0 }) - (if t.source is Some { t.quantity as int } else { 0 })
                } else {
                    0
                }
            },
    {
        let ghost m = self@;
        let ghost cur = t.currency_ty@;
        let q = t.quantity;
        let mut from_idx: Option<usize> = None;
        let mut from_new: i64 = 0;
        match t.source {
            Some(s) => {
                match self.find(s, &t.currency_ty) {
                    Some(i) => {
                        proof {
                            lemma_map_at(self.entries@, i as int);
                        }
                        let old_bal = self.entries[i].balance;
                        if old_bal < q {
                            return Err(TransferError::NotEnough);
                        }
                        from_new = old_bal - q;
                        from_idx = Some(i);
                    },
                    None => {
                        return Err(TransferError::NotEnough);
                    },
                }
            },
            None => {},
        }
        let ghost m1 = match t.source {
            Some(s) => m.insert((s.0, cur), m[(s.0, cur)] - q),
            None => m,
        };
        let mut to_idx: Option<usize> = None;
        let mut to_new: i64 = 0;
        match t.dest {
            Some(d) => {
                match self.find(d, &t.currency_ty) {
                    Some(j) => {
                        proof {
                            lemma_map_at(self.entries@, j as int);
                        }
                        let base = match from_idx {
                            Some(i) => if i == j {
                                from_new
                            } else {
                                self.entries[j].balance
                            },
                            None => self.entries[j].balance,
                        };
                        assert(base == m1[(d.0, cur)]);
                        if base > i64::MAX - q {
                            return Err(TransferError::Overflow);
                        }
                        to_new = base + q;
                        to_idx = Some(j);
                    },
                    None => {
                        return Err(TransferError::Overflow);
                    },
                }
            },
            None => {},
        }
        let ghost t0 = *self;
        match from_idx {
            Some(i) => {
                self.set_balance(i, from_new);
            },
            None => {},
        }
        let ghost t1 = *self;
        assert(self@ == m1);
        assert forall|c: Seq<char>| #[trigger] t1.total(c) == t0.total(c) - if c == cur && t.source is Some { q as int } else { 0 } by {
        }
        match to_idx {
            Some(j) => {
                self.set_balance(j, to_new);
                assert(self@ == m1.insert(((t.dest->0).0, cur), to_new as int));
            },
            None => {},
        }
        assert forall|c: Seq<char>| #[trigger] self.total(c) == t1.total(c) + if c == cur && t.dest is Some { q as int } else { 0 } by {
        }
        let ghost t2 = *self;
        let ghost prev = self.created@;
        let ghost delta: int = (if t.dest is Some { q as int } else { 0 }) - (if t.source is Some { q as int } else { 0 });
        self.created = Ghost(|c: Seq<char>| prev(c) + if c == cur { delta } else { 0 });
        assert forall|c: Seq<char>| #[trigger] currency_total(self.entries@, c) == (self.loaded@)(c) + (self.created@)(c) by {
            assert(t2.total(c) == t1.total(c) + if c == cur && t.dest is Some { q as int } else { 0 });
            assert(t1.total(c) == t0.total(c) - if c == cur && t.source is Some { q as int } else { 0 });
            assert(currency_total(t0.entries@, c) == (t0.loaded@)(c) + (t0.created@)(c));
            assert(self.total(c) == t0.total(c) + if c == cur { delta } else { 0 });
        }
        let row = NewTransfer {
            ty: t.currency_ty,
            from_user: t.source,
            from_balance: match from_idx {
                Some(_) => Some(from_new),
                None => None,
            },
            quantity: q,
            to_user: t.dest,
            to_balance: match to_idx {
                Some(_) => Some(to_new),
                None => None,
            },
            happened_at: t.happened_at,
            message_id: t.message_id,
            to_motion: t.to_motion,
            to_votes: t.to_votes,
            comment: t.comment,
            transfer_ty: match t.transfer_ty {
                Some(k) => k,
                None => TransferType::Give,
            },
            auction_id: t.auction_id,
        };
        Ok(row)
    }
}

/// One side of a logged transfer, as the balance history shows it: the
/// balance that the transfer left one user with in one currency.
#[derive(Clone, Copy, Debug)]
pub struct BalanceRow {
    pub rowid: i64,
    pub happened_at: Timestamp,
    /// `1` for the credited side, `-1` for the debited side.
    pub sign: i32,
    pub balance: i64,
}

/// The order of the balance history: by time, then by row sequence, then
/// with a credit after a debit of the same row.
pub open spec fn row_after(a: BalanceRow, b: BalanceRow) -> bool {
    a.happened_at > b.happened_at || (a.happened_at == b.happened_at && (a.rowid > b.rowid || (a.rowid
        == b.rowid && a.sign > b.sign)))
}

fn row_after_exec(a: &BalanceRow, b: &BalanceRow) -> (r: bool)
    ensures
        r == row_after(*a, *b),
{
    a.happened_at > b.happened_at || (a.happened_at == b.happened_at && (a.rowid > b.rowid || (a.rowid
        == b.rowid && a.sign > b.sign)))
}

/// The current balance of one (user, currency) pair: the balance on its
/// newest history row, or `None` where it has none (it then holds zero, and
/// the whole transfer log must be locked to load it).
pub fn latest_balance(rows: &Vec<BalanceRow>) -> (r: Option<i64>)
    ensures
        r is None <==> rows@.len() == 0,
        r is Some ==> exists|i: int|
            0 <= i < rows@.len() && rows@[i].balance == r->0 && forall|j: int|
                0 <= j < rows@.len() ==> !row_after(#[trigger] rows@[j], rows@[i]),
{
    if rows.len() == 0 {
        return None;
    }
    let mut best: usize = 0;
    let mut i: usize = 1;
    while i < rows.len()
        invariant
            0 <= best < i <= rows@.len(),
            forall|j: int| 0 <= j < i ==> !row_after(#[trigger] rows@[j], rows@[best as int]),
        decreases rows@.len() - i,
    {
        if row_after_exec(&rows[i], &rows[best]) {
            best = i;
        }
        i = i + 1;
    }
    Some(rows[best].balance)
}

/// The balance a snapshot stands for: a pair with no transfer yet holds zero.
pub open spec fn snapshot_value(latest: Option<i64>) -> int {
    match latest {
        Some(b) => b as int,
        None => 0,
    }
}

/// The cache of a single transfer: its source's snapshot, then its
/// destination's where that is another pair.
pub open spec fn single_cache(t: TransactionBuilder, source_latest: Option<i64>, dest_latest: Option<i64>) -> Map<
    BalanceKey,
    int,
> {
    let c = t.currency_ty@;
    let m1 = match t.source {
        Some(s) => Map::<BalanceKey, int>::empty().insert((s.0, c), snapshot_value(source_latest)),
        None => Map::<BalanceKey, int>::empty(),
    };
    match t.dest {
        Some(d) => if m1.contains_key((d.0, c)) {
            m1
        } else {
            m1.insert((d.0, c), snapshot_value(dest_latest))
        },
        None => m1,
    }
}

impl TransferHandler {
    /// Runs one transfer in a cache of its own, loaded with the latest
    /// snapshots of its source and destination (see `transfer_lock_order`
    /// in `locking` for the order in which to read them).
    pub fn handle_single(t: TransactionBuilder, source_latest: Option<i64>, dest_latest: Option<i64>) -> (r: Result<
        NewTransfer,
        TransferError,
    >)
        requires
            t.transfer_ty is Some,
            t.quantity >= 0,
            source_latest is Some ==> source_latest->0 >= 0,
            dest_latest is Some ==> dest_latest->0 >= 0,
        ensures
            r is Ok <==> apply_transfer(
                single_cache(t, source_latest, dest_latest),
                t.source,
                t.dest,
                t.currency_ty@,
                t.quantity as int,
            ) is Ok,
            r is Err ==> r->Err_0 == apply_transfer(
                single_cache(t, source_latest, dest_latest),
                t.source,
                t.dest,
                t.currency_ty@,
                t.quantity as int,
            )->Err_0,
            r is Ok ==> {
                let row = r->Ok_0;
                &&& row.from_user == t.source
                &&& row.to_user == t.dest
                &&& row.quantity == t.quantity
                &&& row.ty@ == t.currency_ty@
                &&& row.transfer_ty == t.transfer_ty->0
                &&& row.from_balance is Some <==> t.source is Some
                &&& t.source is Some ==> row.from_balance->0 == single_cache(t, source_latest, dest_latest)[(
                    (t.source->0).0,
                    t.currency_ty@,
                )] - t.quantity
                &&& row.to_balance is Some <==> t.dest is Some
                &&& t.dest is Some ==> row.to_balance->0 == apply_transfer(
                    single_cache(t, source_latest, dest_latest),
                    t.source,
                    t.dest,
                    t.currency_ty@,
                    t.quantity as int,
                )->Ok_0[((t.dest->0).0, t.currency_ty@)]
            },
    {
        let mut h = TransferHandler::new();
        match t.source {
            Some(u) => {
                h.add_snapshot(u, t.currency_ty.clone(), source_latest);
            },
            None => {},
        }
        match t.dest {
            Some(u) => {
                h.add_snapshot(u, t.currency_ty.clone(), dest_latest);
            },
            None => {},
        }
        proof {
            assert(h@ =~= single_cache(t, source_latest, dest_latest));
        }
        h.transfer(t)
    }
}

/// Conservation: in every currency, the balances a transaction holds sum to
/// what was loaded plus what its transfers created (credits without a debit,
/// such as fabrication) less what they destroyed (debits without a credit).
/// A transfer between two users creates and destroys nothing.
pub proof fn lemma_conservation(h: &TransferHandler, c: Seq<char>)
    requires
        h.wf(),
    ensures
        h.total(c) == h.loaded(c) + h.created(c),
{
    assert(currency_total(h.entries@, c) == (h.loaded@)(c) + (h.created@)(c));
}

/// A debit never leaves a balance negative, and of two debits of one balance
/// that can fund only one of them, exactly one goes through: the first, where
/// its credit fits, and the second then fails with `NotEnough`.
pub proof fn lemma_debits_race(
    m: Map<BalanceKey, int>,
    user: UserId,
    cur: Seq<char>,
    q1: int,
    q2: int,
    dst1: Option<UserId>,
    dst2: Option<UserId>,
)
    requires
        m.contains_key((user.0, cur)),
        forall|k: BalanceKey| m.contains_key(k) ==> m[k] >= 0,
        dst1 is Some ==> m.contains_key(((dst1->0).0, cur)),
        dst1 != Some(user),
        q1 >= 0,
        q2 >= 0,
        m[(user.0, cur)] < q1 + q2,
    ensures
        m[(user.0, cur)] >= q1 && (dst1 is None || m[((dst1->0).0, cur)] + q1 <= i64::MAX) ==> apply_transfer(
            m,
            Some(user),
            dst1,
            cur,
            q1,
        ) is Ok,
        apply_transfer(m, Some(user), dst1, cur, q1) is Ok ==> {
            let m2 = apply_transfer(m, Some(user), dst1, cur, q1)->Ok_0;
            &&& forall|k: BalanceKey| m2.contains_key(k) ==> m2[k] >= 0
            &&& apply_transfer(m2, Some(user), dst2, cur, q2) == Err::<Map<BalanceKey, int>, TransferError>(
                TransferError::NotEnough,
            )
        },
{
    if apply_transfer(m, Some(user), dst1, cur, q1) is Ok {
        let m2 = apply_transfer(m, Some(user), dst1, cur, q1)->Ok_0;
        assert(m2[(user.0, cur)] == m[(user.0, cur)] - q1);
    }
}

} // verus!
