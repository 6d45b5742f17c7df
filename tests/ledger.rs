use pluto::ledger::{latest_balance, BalanceRow, TransactionBuilder, TransferError, TransferHandler};
use pluto::locking::{lock_order, transfer_lock_order};
use pluto::models::{CurrencyId, TransferType, UserId};

fn pc() -> CurrencyId {
    CurrencyId::pc()
}

fn handler(balances: &[(u64, Option<i64>)]) -> TransferHandler {
    let mut h = TransferHandler::new();
    for (u, b) in balances {
        h.add_snapshot(UserId(*u), pc(), *b);
    }
    h
}

#[test]
fn missing_snapshot_starts_at_zero_and_asks_for_table_lock() {
    let mut h = TransferHandler::new();
    assert!(h.add_snapshot(UserId(1), pc(), None));
    assert!(!h.add_snapshot(UserId(2), pc(), Some(7)));
    assert_eq!(h.balance(UserId(1), &pc()), 0);
    assert_eq!(h.balance(UserId(2), &pc()), 7);
    // Loading a pair twice keeps the first snapshot.
    h.add_snapshot(UserId(2), pc(), Some(99));
    assert_eq!(h.balance(UserId(2), &pc()), 7);
}

#[test]
fn give_moves_funds_and_reports_balances() {
    let mut h = handler(&[(1, Some(10)), (2, Some(5))]);
    let t = TransactionBuilder::new(4, pc(), 100).give(UserId(1), UserId(2), false);
    let row = h.transfer(t).unwrap();
    assert_eq!(row.from_balance, Some(6));
    assert_eq!(row.to_balance, Some(9));
    assert_eq!(row.transfer_ty, TransferType::Give);
    assert_eq!(row.quantity, 4);
    assert_eq!(row.happened_at, 100);
    assert_eq!(h.balance(UserId(1), &pc()), 6);
    assert_eq!(h.balance(UserId(2), &pc()), 9);
}

#[test]
fn debit_beyond_balance_is_refused_without_change() {
    let mut h = handler(&[(1, Some(3)), (2, Some(0))]);
    let t = TransactionBuilder::new(4, pc(), 0).give(UserId(1), UserId(2), true);
    assert!(matches!(h.transfer(t), Err(TransferError::NotEnough)));
    assert_eq!(h.balance(UserId(1), &pc()), 3);
    assert_eq!(h.balance(UserId(2), &pc()), 0);
}

#[test]
fn credit_past_i64_is_overflow_without_change() {
    let mut h = handler(&[(1, Some(5)), (2, Some(i64::MAX - 1))]);
    let t = TransactionBuilder::new(2, pc(), 0).give(UserId(1), UserId(2), false);
    assert!(matches!(h.transfer(t), Err(TransferError::Overflow)));
    assert_eq!(h.balance(UserId(1), &pc()), 5);
    assert_eq!(h.balance(UserId(2), &pc()), i64::MAX - 1);
    let f = TransactionBuilder::new(2, pc(), 0).fabricate(UserId(2), false);
    assert!(matches!(h.transfer(f), Err(TransferError::Overflow)));
}

#[test]
fn fabricate_creates_currency() {
    let mut h = handler(&[(1, None)]);
    let t = TransactionBuilder::new(50, pc(), 0).fabricate(UserId(1), true);
    let row = h.transfer(t).unwrap();
    assert_eq!(row.from_user, None);
    assert_eq!(row.from_balance, None);
    assert_eq!(row.to_balance, Some(50));
    assert_eq!(row.transfer_ty, TransferType::Generated);
}

#[test]
fn racing_debits_only_one_succeeds() {
    // Two debits of 6 from a balance of 10: the first goes through, the second is refused.
    let mut h = handler(&[(1, Some(10)), (2, Some(0)), (3, Some(0))]);
    let a = TransactionBuilder::new(6, pc(), 0).give(UserId(1), UserId(2), false);
    let b = TransactionBuilder::new(6, pc(), 0).give(UserId(1), UserId(3), false);
    assert!(h.transfer(a).is_ok());
    assert!(matches!(h.transfer(b), Err(TransferError::NotEnough)));
    assert_eq!(h.balance(UserId(1), &pc()), 4);
    assert_eq!(h.balance(UserId(3), &pc()), 0);
}

#[test]
fn value_is_conserved_except_by_fabrication() {
    let mut h = handler(&[(1, Some(10)), (2, Some(5)), (3, None)]);
    let total = |h: &TransferHandler| -> i64 {
        (1..=3).map(|u| h.balance(UserId(u), &pc())).sum()
    };
    assert_eq!(total(&h), 15);
    h.transfer(TransactionBuilder::new(7, pc(), 0).give(UserId(1), UserId(3), false)).unwrap();
    assert_eq!(total(&h), 15);
    h.transfer(TransactionBuilder::new(20, pc(), 0).fabricate(UserId(2), false)).unwrap();
    assert_eq!(total(&h), 35);
    h.transfer(TransactionBuilder::new(4, pc(), 0).motion(UserId(3), 9, 1, false)).unwrap();
    assert_eq!(total(&h), 31);
}

#[test]
fn lock_order_sorts_and_dedups() {
    let users = vec![UserId(5), UserId(2), UserId(5), UserId(9)];
    let currencies = vec![CurrencyId::pc(), CurrencyId::gen(), CurrencyId::pc()];
    let order = lock_order(&users, &currencies);
    let keys: Vec<(u64, String)> = order.iter().map(|(u, c)| (u.0, c.as_str().to_string())).collect();
    assert_eq!(
        keys,
        vec![
            (2, "gen".to_string()),
            (2, "pc".to_string()),
            (5, "gen".to_string()),
            (5, "pc".to_string()),
            (9, "gen".to_string()),
            (9, "pc".to_string()),
        ]
    );
}

#[test]
fn single_transfer_locks_both_sides() {
    let t = TransactionBuilder::new(1, pc(), 0).give(UserId(8), UserId(3), false);
    let order = transfer_lock_order(&t);
    let users: Vec<u64> = order.iter().map(|(u, _)| u.0).collect();
    assert_eq!(users, vec![3, 8]);
    let f = TransactionBuilder::new(1, pc(), 0).fabricate(UserId(4), false);
    assert_eq!(transfer_lock_order(&f).len(), 1);
}

#[test]
fn single_transfer_in_its_own_cache() {
    let t = TransactionBuilder::new(3, pc(), 0).give(UserId(1), UserId(2), false);
    let row = TransferHandler::handle_single(t, Some(5), None).unwrap();
    assert_eq!((row.from_balance, row.to_balance), (Some(2), Some(3)));
    let t = TransactionBuilder::new(3, pc(), 0).give(UserId(1), UserId(2), false);
    assert!(matches!(TransferHandler::handle_single(t, None, Some(1)), Err(TransferError::NotEnough)));
    let f = TransactionBuilder::new(9, pc(), 0).fabricate(UserId(4), true);
    assert_eq!(TransferHandler::handle_single(f, None, None).unwrap().to_balance, Some(9));
}

#[test]
fn newest_history_row_gives_the_balance() {
    let r = |rowid: i64, happened_at: i64, sign: i32, balance: i64| BalanceRow { rowid, happened_at, sign, balance };
    assert_eq!(latest_balance(&vec![]), None);
    assert_eq!(latest_balance(&vec![r(1, 10, 1, 5), r(2, 20, -1, 3), r(3, 15, 1, 9)]), Some(3));
    // Same instant: the later row wins.
    assert_eq!(latest_balance(&vec![r(8, 30, 1, 7), r(4, 30, 1, 2)]), Some(7));
    // Same row (a transfer to oneself): the credit comes after the debit.
    assert_eq!(latest_balance(&vec![r(9, 40, 1, 12), r(9, 40, -1, 2)]), Some(12));
}
