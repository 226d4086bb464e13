use tx_engine::account::Account;
use tx_engine::state::State;
use tx_engine::tx::{Tx, TxKind};

fn acct(s: &State, client_id: u16) -> Account {
    s.account(client_id).expect("account should exist")
}

// The account invariant: after every applied record, total == available +
// held for every account (held is unsigned, hence never negative).
#[test]
fn every_account_balances_after_each_step() {
    let mut s = State::new();
    let steps = vec![
        Tx::new(TxKind::Deposit, 1, 1, Some(100_000)),
        Tx::new(TxKind::Deposit, 2, 2, Some(250_000)),
        Tx::new(TxKind::Withdrawal, 1, 3, Some(30_000)),
        Tx::new(TxKind::Dispute, 1, 3, None),
        Tx::new(TxKind::Withdrawal, 2, 4, Some(50_000)),
        Tx::new(TxKind::Dispute, 2, 4, None),
        Tx::new(TxKind::Resolve, 1, 3, None),
        Tx::new(TxKind::Chargeback, 2, 4, None),
        Tx::new(TxKind::Deposit, 2, 5, Some(10_000)),
        Tx::new(TxKind::Unrecognized, 1, 6, None),
    ];
    for tx in steps {
        s.handle_tx(tx);
        for a in s.snapshot() {
            assert_eq!(a.total, a.available + a.held);
        }
    }
}

// Idempotence of rejection: a rejected record leaves every account's
// (available, held, total, locked) tuple exactly as before.
#[test]
fn rejected_records_leave_accounts_identical() {
    let mut s = State::new();
    s.handle_tx(Tx::new(TxKind::Deposit, 1, 1, Some(100_000)));
    s.handle_tx(Tx::new(TxKind::Withdrawal, 1, 2, Some(30_000)));
    s.handle_tx(Tx::new(TxKind::Dispute, 1, 2, None));
    let before = s.snapshot();
    let rejected = vec![
        Tx::new(TxKind::Withdrawal, 1, 3, Some(999_999)), // insufficient funds
        Tx::new(TxKind::Withdrawal, 7, 4, Some(1)),       // unknown client
        Tx::new(TxKind::Dispute, 1, 1, None),             // deposits are not disputable
        Tx::new(TxKind::Dispute, 1, 99, None),            // unknown transaction id
        Tx::new(TxKind::Resolve, 1, 1, None),             // reference not under dispute
        Tx::new(TxKind::Chargeback, 1, 99, None),         // unknown transaction id
        Tx::new(TxKind::Unrecognized, 1, 5, None),        // unrecognized kind
    ];
    for tx in rejected {
        s.handle_tx(tx);
        assert_eq!(s.snapshot(), before);
    }
}

// Lock finality: once locked, an account never changes again, whatever is
// thrown at it.
#[test]
fn locked_account_never_changes_again() {
    let mut s = State::new();
    s.handle_tx(Tx::new(TxKind::Deposit, 1, 1, Some(100_000)));
    s.handle_tx(Tx::new(TxKind::Withdrawal, 1, 2, Some(10_000)));
    s.handle_tx(Tx::new(TxKind::Withdrawal, 1, 3, Some(20_000)));
    s.handle_tx(Tx::new(TxKind::Dispute, 1, 2, None));
    s.handle_tx(Tx::new(TxKind::Dispute, 1, 3, None));
    s.handle_tx(Tx::new(TxKind::Chargeback, 1, 2, None));
    let locked = acct(&s, 1);
    assert!(locked.locked);
    assert_eq!(locked.available, 40_000);
    assert_eq!(locked.held, 20_000);
    assert_eq!(locked.total, 60_000);
    // deposit, withdrawal, and even the still-open dispute's resolve and
    // chargeback are all rejected on the locked account
    s.handle_tx(Tx::new(TxKind::Deposit, 1, 4, Some(1)));
    s.handle_tx(Tx::new(TxKind::Withdrawal, 1, 5, Some(1)));
    s.handle_tx(Tx::new(TxKind::Resolve, 1, 3, None));
    s.handle_tx(Tx::new(TxKind::Chargeback, 1, 3, None));
    s.handle_tx(Tx::new(TxKind::Dispute, 1, 3, None));
    assert_eq!(acct(&s, 1), locked);
}

// A dispute naming an existing transaction but the wrong client is rejected.
#[test]
fn cross_client_dispute_is_rejected() {
    let mut s = State::new();
    s.handle_tx(Tx::new(TxKind::Deposit, 1, 1, Some(100_000)));
    s.handle_tx(Tx::new(TxKind::Withdrawal, 1, 2, Some(40_000)));
    s.handle_tx(Tx::new(TxKind::Deposit, 2, 3, Some(70_000)));
    let before_1 = acct(&s, 1);
    let before_2 = acct(&s, 2);
    s.handle_tx(Tx::new(TxKind::Dispute, 2, 2, None));
    assert_eq!(acct(&s, 1), before_1);
    assert_eq!(acct(&s, 2), before_2);
}

// A dispute whose referenced transaction is of zero value is rejected:
// there is nothing to freeze.
#[test]
fn zero_amount_dispute_is_rejected() {
    let mut s = State::new();
    s.handle_tx(Tx::new(TxKind::Deposit, 1, 1, Some(100_000)));
    s.handle_tx(Tx::new(TxKind::Withdrawal, 1, 2, Some(0)));
    s.handle_tx(Tx::new(TxKind::Dispute, 1, 2, None));
    let a = acct(&s, 1);
    assert_eq!(a.available, 100_000);
    assert_eq!(a.held, 0);
    // the rejected dispute flagged nothing, so a resolve is rejected too
    s.handle_tx(Tx::new(TxKind::Resolve, 1, 2, None));
    assert_eq!(acct(&s, 1), a);
}

#[test]
fn resolve_without_open_dispute_is_rejected() {
    let mut s = State::new();
    s.handle_tx(Tx::new(TxKind::Deposit, 1, 1, Some(100_000)));
    s.handle_tx(Tx::new(TxKind::Withdrawal, 1, 2, Some(40_000)));
    let before = acct(&s, 1);
    s.handle_tx(Tx::new(TxKind::Resolve, 1, 2, None));
    s.handle_tx(Tx::new(TxKind::Chargeback, 1, 2, None));
    assert_eq!(acct(&s, 1), before);
}

// A deposit that would push the balance past the fixed-point range is
// rejected rather than wrapping around.
#[test]
fn deposit_overflow_is_rejected() {
    let mut s = State::new();
    s.handle_tx(Tx::new(TxKind::Deposit, 1, 1, Some(u64::MAX)));
    s.handle_tx(Tx::new(TxKind::Deposit, 1, 2, Some(1)));
    let a = acct(&s, 1);
    assert_eq!(a.available, u64::MAX);
    assert_eq!(a.total, u64::MAX);
    // the account still works: a withdrawal within funds is applied
    s.handle_tx(Tx::new(TxKind::Withdrawal, 1, 3, Some(1)));
    assert_eq!(acct(&s, 1).available, u64::MAX - 1);
}

// Duplicate monetary transaction ids overwrite the stored record: a later
// dispute sees the latest amount.
#[test]
fn duplicate_id_last_write_wins() {
    let mut s = State::new();
    s.handle_tx(Tx::new(TxKind::Deposit, 1, 1, Some(100_000)));
    s.handle_tx(Tx::new(TxKind::Withdrawal, 1, 2, Some(10_000)));
    s.handle_tx(Tx::new(TxKind::Withdrawal, 1, 2, Some(20_000)));
    let a = acct(&s, 1);
    assert_eq!(a.available, 70_000);
    s.handle_tx(Tx::new(TxKind::Dispute, 1, 2, None));
    let a = acct(&s, 1);
    assert_eq!(a.available, 50_000);
    assert_eq!(a.held, 20_000);
    assert_eq!(a.total, 70_000);
}

#[test]
fn unrecognized_kind_is_a_no_op() {
    let mut s = State::new();
    s.handle_tx(Tx::new(TxKind::Deposit, 1, 1, Some(100_000)));
    let before = s.snapshot();
    s.handle_tx(Tx::new(TxKind::Unrecognized, 1, 2, Some(5_000)));
    assert_eq!(s.snapshot(), before);
}

#[test]
fn default_ledger_is_empty() {
    let s = State::default();
    assert!(s.snapshot().is_empty());
    assert!(s.account(0).is_none());
}
