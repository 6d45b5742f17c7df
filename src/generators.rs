use vstd::prelude::*;

use crate::ledger::{BalanceKey, NewTransfer, TransactionBuilder, TransferError, TransferHandler};
use crate::models::{CurrencyId, Timestamp, TransferType, UserId};

verus! {

/// How often generators pay out, in seconds.
pub const GENERATE_EVERY: i64 = 86400;

/// The instant of the payout that is due at `now` after the last one at
/// `last_gen`, or `None` where none is due yet.
pub fn next_generation(last_gen: Timestamp, now: Timestamp) -> (r: Option<Timestamp>)
    requires
        last_gen <= i64::MAX - GENERATE_EVERY,
    ensures
        r == if now - last_gen >= GENERATE_EVERY {
            Some((last_gen + GENERATE_EVERY) as i64)
        } else {
            None::<i64>
        },
{
    if now < last_gen + GENERATE_EVERY {
        None
    } else {
        Some(last_gen + GENERATE_EVERY)
    }
}

/// The balances after every user of `users` is paid, in political capital,
/// as much as they hold in generators.
pub open spec fn paid_out(m: Map<BalanceKey, int>, users: Seq<UserId>) -> Map<BalanceKey, int> {
    Map::new(
        |k: BalanceKey| m.contains_key(k),
        |k: BalanceKey|
            if k.1 == "pc"@ && exists|i: int| 0 <= i < users.len() && users[i].0 == k.0 {
                m[k] + m[(k.0, "gen"@)]
            } else {
                m[k]
            },
    )
}

/// Whether every user of `users` can be paid: their political capital plus
/// their generators fits an `i64`.
pub open spec fn payout_fits(m: Map<BalanceKey, int>, users: Seq<UserId>) -> bool {
    forall|i: int|
        0 <= i < users.len() ==> m[(#[trigger] users[i].0, "pc"@)] + m[(users[i].0, "gen"@)] <= i64::MAX
}

/// Pays every generator holder of `users` (each listed once), inside one
/// transaction whose cache holds their political capital and generators: each
/// is credited, as newly created capital, what they hold in generators. Where
/// a credit would overflow, the whole payout fails and the transaction is to
/// be abandoned.
pub fn pay_generators(handle: &mut TransferHandler, users: &Vec<UserId>, now: Timestamp) -> (r: Result<
    Vec<NewTransfer>,
    TransferError,
>)
    requires
        old(handle).wf(),
        forall|i: int, j: int| 0 <= i < j < users@.len() ==> users@[i].0 != users@[j].0,
        forall|i: int|
            0 <= i < users@.len() ==> old(handle)@.contains_key((#[trigger] users@[i].0, "pc"@))
                && old(handle)@.contains_key((users@[i].0, "gen"@)),
    ensures
        final(handle).wf(),
        r is Ok <==> payout_fits(old(handle)@, users@),
        r is Err ==> r->Err_0 == TransferError::Overflow,
        r is Ok ==> {
            &&& final(handle)@ == paid_out(old(handle)@, users@)
            &&& r->Ok_0@.len() == users@.len()
            &&& forall|i: int| 0 <= i < users@.len() ==> {
                let t = #[trigger] r->Ok_0@[i];
                &&& t.to_user == Some(users@[i])
                &&& t.from_user is None
                &&& t.quantity == old(handle)@[(users@[i].0, "gen"@)]
                &&& t.ty@ == "pc"@
                &&& t.transfer_ty == TransferType::Generated
                &&& t.happened_at == now
            }
        },
{
    let ghost m = handle@;
    let ghost us = users@;
    let mut rows: Vec<NewTransfer> = Vec::new();
    let mut i: usize = 0;
    proof {
        reveal_strlit("pc");
        reveal_strlit("gen");
        assert("pc"@ != "gen"@) by {
            assert("pc"@.len() != "gen"@.len());
        }
    }
    while i < users.len()
        invariant
            handle.wf(),
            us == users@,
            "pc"@ != "gen"@,
            forall|a: int, b: int| 0 <= a < b < us.len() ==> us[a].0 != us[b].0,
            forall|a: int|
                0 <= a < us.len() ==> m.contains_key((#[trigger] us[a].0, "pc"@))
                    && m.contains_key((us[a].0, "gen"@)),
            0 <= i <= us.len(),
            handle@ == paid_out(m, us.subrange(0, i as int)),
            m == old(handle)@,
            forall|a: int| 0 <= a < i ==> m[(#[trigger] us[a].0, "pc"@)] + m[(us[a].0, "gen"@)] <= i64::MAX,
            rows@.len() == i,
            forall|a: int| 0 <= a < i ==> {
                let t = #[trigger] rows@[a];
                &&& t.to_user == Some(us[a])
                &&& t.from_user is None
                &&& t.quantity == m[(us[a].0, "gen"@)]
                &&& t.ty@ == "pc"@
                &&& t.transfer_ty == TransferType::Generated
                &&& t.happened_at == now
            },
        decreases us.len() - i,
    {
        let u = users[i];
        let ghost done = us.subrange(0, i as int);
        let ghost next = us.subrange(0, i as int + 1);
        proof {
            assert(!(exists|a: int| 0 <= a < done.len() && done[a].0 == u.0)) by {
                if exists|a: int| 0 <= a < done.len() && done[a].0 == u.0 {
                    let a = choose|a: int| 0 <= a < done.len() && done[a].0 == u.0;
                    assert(us[a].0 != us[i as int].0);
                }
            }
            assert(handle@[(u.0, "gen"@)] == m[(u.0, "gen"@)]);
            assert(handle@[(u.0, "pc"@)] == m[(u.0, "pc"@)]);
        }
        let gen = handle.balance(u, &CurrencyId::gen());
        let t = TransactionBuilder::new(gen, CurrencyId::pc(), now);
        let t = t.fabricate(u, true);
        let ghost before = handle@;
        let row = match handle.transfer(t) {
            Ok(row) => row,
            Err(e) => {
                proof {
                    assert(m[(us[i as int].0, "pc"@)] + m[(us[i as int].0, "gen"@)] > i64::MAX);
                    assert(!payout_fits(m, us)) by {
                        if payout_fits(m, us) {
                            assert(m[(us[i as int].0, "pc"@)] + m[(us[i as int].0, "gen"@)] <= i64::MAX);
                        }
                    }
                }
                return Err(e);
            },
        };
        proof {
            assert forall|k: BalanceKey| #[trigger] handle@.contains_key(k) == paid_out(m, next).contains_key(k) by {
            }
            assert forall|k: BalanceKey| handle@.contains_key(k) implies handle@[k] == paid_out(m, next)[k] by {
                if k.1 == "pc"@ && k.0 == u.0 {
                    assert(next[i as int].0 == k.0);
                } else if k.1 == "pc"@ {
                    if exists|a: int| 0 <= a < next.len() && next[a].0 == k.0 {
                        let a = choose|a: int| 0 <= a < next.len() && next[a].0 == k.0;
                        assert(a != i);
                        assert(done[a].0 == k.0);
                    }
                    if exists|a: int| 0 <= a < done.len() && done[a].0 == k.0 {
                        let a = choose|a: int| 0 <= a < done.len() && done[a].0 == k.0;
                        assert(next[a].0 == k.0);
                    }
                }
            }
            assert(handle@ =~= paid_out(m, next));
        }
        rows.push(row);
        i = i + 1;
    }
    proof {
        assert(us.subrange(0, i as int) =~= us);
    }
    Ok(rows)
}

} // verus!
