use vstd::prelude::*;

use crate::ledger::{apply_transfer, BalanceKey, TransactionBuilder, TransferHandler};
use crate::models::{CurrencyId, TransferType, UserId};

verus! {

/// A row of the transfer log, as far as balances go.
pub struct LogRow {
    pub rowid: i64,
    pub ty: CurrencyId,
    pub from_user: Option<UserId>,
    pub quantity: i64,
    pub to_user: Option<UserId>,
    pub from_balance: Option<i64>,
    pub to_balance: Option<i64>,
    pub transfer_ty: TransferType,
}

pub open spec fn with_zero(m: Map<BalanceKey, int>, u: Option<UserId>, c: Seq<char>) -> Map<BalanceKey, int> {
    match u {
        Some(u) => if m.contains_key((u.0, c)) {
            m
        } else {
            m.insert((u.0, c), 0)
        },
        None => m,
    }
}

/// Replays the transfer log from empty balances: the balances it ends with
/// and, for each row, the balances it should have recorded for its source
/// and its destination. `None` where a row has a negative quantity, would
/// leave a debited balance negative, or would overflow a balance.
pub open spec fn replay(rows: Seq<LogRow>) -> Option<(Map<BalanceKey, int>, Seq<(Option<i64>, Option<i64>)>)>
    decreases rows.len(),
{
    if rows.len() == 0 {
        Some((Map::empty(), Seq::empty()))
    } else {
        match replay(rows.drop_last()) {
            None => None,
            Some(prev) => {
                let r = rows.last();
                let c = r.ty@;
                let m0 = with_zero(with_zero(prev.0, r.from_user, c), r.to_user, c);
                if r.quantity < 0 {
                    None
                } else {
                    match apply_transfer(m0, r.from_user, r.to_user, c, r.quantity as int) {
                        Err(_) => None,
                        Ok(m1) => Some(
                            (
                                m1,
                                prev.1.push(
                                    (
                                        match r.from_user {
                                            Some(u) => Some((m0[(u.0, c)] - r.quantity) as i64),
                                            None => None,
                                        },
                                        match r.to_user {
                                            Some(u) => Some(m1[(u.0, c)] as i64),
                                            None => None,
                                        },
                                    ),
                                ),
                            ),
                        ),
                    }
                }
            },
        }
    }
}

/// Recomputes the balance snapshots of the whole transfer log, in log order.
/// Returns, for each row, the source and destination balances it should
/// record; `None` where the log cannot be replayed (see `replay`).
pub fn fix_transactions(rows: &Vec<LogRow>) -> (r: Option<Vec<(Option<i64>, Option<i64>)>>)
    ensures
        r is Some <==> replay(rows@) is Some,
        r is Some ==> r->0@ == (replay(rows@)->0).1,
{
    let mut handle = TransferHandler::new();
    let mut out: Vec<(Option<i64>, Option<i64>)> = Vec::new();
    let mut i: usize = 0;
    while i < rows.len()
        invariant
            0 <= i <= rows@.len(),
            handle.wf(),
            replay(rows@.subrange(0, i as int)) is Some,
            handle@ == (replay(rows@.subrange(0, i as int))->0).0,
            out@ == (replay(rows@.subrange(0, i as int))->0).1,
        decreases rows@.len() - i,
    {
        let row = &rows[i];
        proof {
            assert(rows@.subrange(0, i as int + 1).drop_last() =~= rows@.subrange(0, i as int));
        }
        if row.quantity < 0 {
            proof {
                lemma_replay_stops(rows@, i as int + 1);
            }
            return None;
        }
        match row.from_user {
            Some(u) => {
                handle.add_snapshot(u, row.ty.clone(), None);
            },
            None => {},
        }
        match row.to_user {
            Some(u) => {
                handle.add_snapshot(u, row.ty.clone(), None);
            },
            None => {},
        }
        let t = TransactionBuilder {
            currency_ty: row.ty.clone(),
            source: row.from_user,
            quantity: row.quantity,
            dest: row.to_user,
            happened_at: 0,
            message_id: None,
            to_motion: None,
            to_votes: None,
            comment: None,
            transfer_ty: Some(row.transfer_ty),
            auction_id: None,
        };
        match handle.transfer(t) {
            Ok(new_row) => {
                out.push((new_row.from_balance, new_row.to_balance));
            },
            Err(_) => {
                proof {
                    lemma_replay_stops(rows@, i as int + 1);
                }
                return None;
            },
        }
        i = i + 1;
    }
    proof {
        assert(rows@.subrange(0, i as int) =~= rows@);
    }
    Some(out)
}

/// Once a prefix of the log cannot be replayed, neither can the whole log.
proof fn lemma_replay_stops(rows: Seq<LogRow>, n: int)
    requires
        0 <= n <= rows.len(),
        replay(rows.subrange(0, n)) is None,
    ensures
        replay(rows) is None,
    decreases rows.len() - n,
{
    if n < rows.len() {
        assert(rows.subrange(0, n + 1).drop_last() =~= rows.subrange(0, n));
        lemma_replay_stops(rows, n + 1);
    } else {
        assert(rows.subrange(0, n) =~= rows);
    }
}

} // verus!
