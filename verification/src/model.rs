use vstd::prelude::*;

use crate::account::Account;
use crate::tx::{Tx, TxKind};

verus! {

/// The mathematical model of the ledger.
///
/// `accounts` maps a client id to its account, `order` lists the client ids
/// in the order their accounts were created, `txs` is the log of applied
/// deposits and withdrawals keyed by transaction id, and `disputes` maps the
/// id of a disputed transaction to the amount that was frozen when the
/// dispute was opened.
#[verifier::ext_equal]
pub ghost struct Model {
    pub accounts: Map<u16, Account>,
    pub order: Seq<u16>,
    pub txs: Map<u32, Tx>,
    pub disputes: Map<u32, u64>,
}

impl Model {
    /// The state of a ledger that has seen no transaction.
    pub open spec fn init() -> Model {
        Model {
            accounts: Map::empty(),
            order: Seq::empty(),
            txs: Map::empty(),
            disputes: Map::empty(),
        }
    }
}

/// The dispute validator: decides whether the transaction referenced by a
/// dispute, resolve or chargeback record is eligible, and recovers its
/// original amount.
///
/// In order: the referenced id must be in the transaction log; a deposit
/// cannot be disputed (disputing a deposit has no reversing economic meaning
/// in this ledger); resolve and chargeback demand that the reference is
/// currently under dispute; the claiming client must exist and must be the
/// client of the referenced transaction (no cross-account claims).
pub open spec fn validate(m: Model, client_id: u16, tx_id: u32, expected: TxKind) -> Option<u64> {
    if !m.txs.contains_key(tx_id) {
        None
    } else {
        let r = m.txs[tx_id];
        if expected is Dispute && r.kind is Deposit {
            None
        } else if (expected is Resolve || expected is Chargeback) && !r.disputed {
            None
        } else if !m.accounts.contains_key(client_id) {
            None
        } else if r.client_id != client_id {
            None
        } else {
            r.amount
        }
    }
}

/// A deposit is accepted unless the client's account exists and is locked,
/// or crediting the amount would overflow the fixed-point representation.
pub open spec fn deposit_accepted(m: Model, client_id: u16, amount: u64) -> bool {
    m.accounts.contains_key(client_id) ==> {
        let a = m.accounts[client_id];
        &&& !a.locked
        &&& a.available + amount <= u64::MAX
        &&& a.total + amount <= u64::MAX
    }
}

/// Effect of a deposit record: create the account if absent, credit
/// `available` and `total`, and store (or overwrite) the record in the
/// transaction log. A rejected deposit changes nothing.
pub open spec fn apply_deposit(m: Model, tx: Tx) -> Model {
    match tx.amount {
        None => m,
        Some(amount) => {
            if !deposit_accepted(m, tx.client_id, amount) {
                m
            } else if m.accounts.contains_key(tx.client_id) {
                let a = m.accounts[tx.client_id];
                let credited = Account {
                    id: a.id,
                    available: (a.available + amount) as u64,
                    held: a.held,
                    total: (a.total + amount) as u64,
                    locked: a.locked,
                };
                Model {
                    accounts: m.accounts.insert(tx.client_id, credited),
                    order: m.order,
                    txs: m.txs.insert(tx.id, tx),
                    disputes: m.disputes,
                }
            } else {
                let fresh = Account {
                    id: tx.client_id,
                    available: amount,
                    held: 0,
                    total: amount,
                    locked: false,
                };
                Model {
                    accounts: m.accounts.insert(tx.client_id, fresh),
                    order: m.order.push(tx.client_id),
                    txs: m.txs.insert(tx.id, tx),
                    disputes: m.disputes,
                }
            }
        }
    }
}

/// A withdrawal is accepted only when the client's account exists, is not
/// locked, and holds enough available (and total) funds.
pub open spec fn withdrawal_accepted(m: Model, client_id: u16, amount: u64) -> bool {
    &&& m.accounts.contains_key(client_id)
    &&& !m.accounts[client_id].locked
    &&& amount <= m.accounts[client_id].available
    &&& amount <= m.accounts[client_id].total
}

/// Effect of a withdrawal record: debit `available` and `total` and store
/// (or overwrite) the record in the transaction log. A rejected withdrawal
/// changes nothing.
pub open spec fn apply_withdrawal(m: Model, tx: Tx) -> Model {
    match tx.amount {
        None => m,
        Some(amount) => {
            if !withdrawal_accepted(m, tx.client_id, amount) {
                m
            } else {
                let a = m.accounts[tx.client_id];
                let debited = Account {
                    id: a.id,
                    available: (a.available - amount) as u64,
                    held: a.held,
                    total: (a.total - amount) as u64,
                    locked: a.locked,
                };
                Model {
                    accounts: m.accounts.insert(tx.client_id, debited),
                    order: m.order,
                    txs: m.txs.insert(tx.id, tx),
                    disputes: m.disputes,
                }
            }
        }
    }
}

/// A dispute is accepted when the validator recovers a non-zero amount, the
/// account is not locked, and freezing the amount neither drains more than
/// the available funds nor overflows `held`.
pub open spec fn dispute_accepted(m: Model, tx: Tx) -> bool {
    match validate(m, tx.client_id, tx.id, TxKind::Dispute) {
        None => false,
        Some(amount) => {
            let a = m.accounts[tx.client_id];
            &&& amount != 0
            &&& !a.locked
            &&& amount <= a.available
            &&& a.held + amount <= u64::MAX
        }
    }
}

/// Effect of a dispute record: move the recovered amount from `available` to
/// `held` (leaving `total` unchanged), record the frozen amount in the
/// dispute log, and flag the referenced transaction as disputed. A rejected
/// dispute changes nothing.
pub open spec fn apply_dispute(m: Model, tx: Tx) -> Model {
    if !dispute_accepted(m, tx) {
        m
    } else {
        let amount = validate(m, tx.client_id, tx.id, TxKind::Dispute).unwrap();
        let a = m.accounts[tx.client_id];
        let frozen = Account {
            id: a.id,
            available: (a.available - amount) as u64,
            held: (a.held + amount) as u64,
            total: a.total,
            locked: a.locked,
        };
        let r = m.txs[tx.id];
        let flagged = Tx {
            kind: r.kind,
            client_id: r.client_id,
            id: r.id,
            amount: r.amount,
            disputed: true,
        };
        Model {
            accounts: m.accounts.insert(tx.client_id, frozen),
            order: m.order,
            txs: m.txs.insert(tx.id, flagged),
            disputes: m.disputes.insert(tx.id, amount),
        }
    }
}

/// A resolve is accepted when the validator passes (which demands that the
/// reference is currently disputed), the account is not locked, and the
/// frozen amount recorded in the dispute log can be released: it must not
/// exceed `held`, and crediting it back must not overflow `available`.
pub open spec fn resolve_accepted(m: Model, tx: Tx) -> bool {
    &&& validate(m, tx.client_id, tx.id, TxKind::Resolve) is Some
    &&& !m.accounts[tx.client_id].locked
    &&& m.disputes.contains_key(tx.id)
    &&& m.disputes[tx.id] <= m.accounts[tx.client_id].held
    &&& m.accounts[tx.client_id].available + m.disputes[tx.id] <= u64::MAX
}

/// Effect of a resolve record: release the frozen amount from `held` back to
/// `available` (leaving `total` unchanged) and clear the disputed flag,
/// closing the dispute. A rejected resolve changes nothing.
pub open spec fn apply_resolve(m: Model, tx: Tx) -> Model {
    if !resolve_accepted(m, tx) {
        m
    } else {
        let amount = m.disputes[tx.id];
        let a = m.accounts[tx.client_id];
        let released = Account {
            id: a.id,
            available: (a.available + amount) as u64,
            held: (a.held - amount) as u64,
            total: a.total,
            locked: a.locked,
        };
        let r = m.txs[tx.id];
        let cleared = Tx {
            kind: r.kind,
            client_id: r.client_id,
            id: r.id,
            amount: r.amount,
            disputed: false,
        };
        Model {
            accounts: m.accounts.insert(tx.client_id, released),
            order: m.order,
            txs: m.txs.insert(tx.id, cleared),
            disputes: m.disputes,
        }
    }
}

/// A chargeback is accepted under the same conditions as a resolve, except
/// that the frozen amount is removed for good: it must not exceed `held` nor
/// `total`.
pub open spec fn chargeback_accepted(m: Model, tx: Tx) -> bool {
    &&& validate(m, tx.client_id, tx.id, TxKind::Chargeback) is Some
    &&& !m.accounts[tx.client_id].locked
    &&& m.disputes.contains_key(tx.id)
    &&& m.disputes[tx.id] <= m.accounts[tx.client_id].held
    &&& m.disputes[tx.id] <= m.accounts[tx.client_id].total
}

/// Effect of a chargeback record: permanently remove the frozen amount from
/// `held` and `total` (it is not returned to `available`) and lock the
/// account, disabling every future operation on it. The disputed flag on the
/// referenced transaction stays set; the lock alone bars any further claim.
/// A rejected chargeback changes nothing.
pub open spec fn apply_chargeback(m: Model, tx: Tx) -> Model {
    if !chargeback_accepted(m, tx) {
        m
    } else {
        let amount = m.disputes[tx.id];
        let a = m.accounts[tx.client_id];
        let charged = Account {
            id: a.id,
            available: a.available,
            held: (a.held - amount) as u64,
            total: (a.total - amount) as u64,
            locked: true,
        };
        Model {
            accounts: m.accounts.insert(tx.client_id, charged),
            order: m.order,
            txs: m.txs,
            disputes: m.disputes,
        }
    }
}

/// The transition function of the ledger: the state after applying one
/// transaction record. A record of unrecognized kind is rejected and changes
/// nothing.
pub open spec fn spec_apply(m: Model, tx: Tx) -> Model {
    match tx.kind {
        TxKind::Deposit => apply_deposit(m, tx),
        TxKind::Withdrawal => apply_withdrawal(m, tx),
        TxKind::Dispute => apply_dispute(m, tx),
        TxKind::Resolve => apply_resolve(m, tx),
        TxKind::Chargeback => apply_chargeback(m, tx),
        TxKind::Unrecognized => m,
    }
}

/// Whether a transaction record is accepted (has an effect) in state `m`;
/// every record that is not accepted is rejected, and rejection is a no-op.
pub open spec fn accepted(m: Model, tx: Tx) -> bool {
    match tx.kind {
        TxKind::Deposit => tx.amount matches Some(amount)
            && deposit_accepted(m, tx.client_id, amount),
        TxKind::Withdrawal => tx.amount matches Some(amount)
            && withdrawal_accepted(m, tx.client_id, amount),
        TxKind::Dispute => dispute_accepted(m, tx),
        TxKind::Resolve => resolve_accepted(m, tx),
        TxKind::Chargeback => chargeback_accepted(m, tx),
        TxKind::Unrecognized => false,
    }
}

/// Every account balances (`total == available + held`), and an account's
/// stored id agrees with the key it is filed under.
pub open spec fn accounts_inv(m: Model) -> bool {
    forall|c: u16| #[trigger] m.accounts.contains_key(c) ==> {
        let a = m.accounts[c];
        &&& a.id == c
        &&& a.is_consistent()
    }
}

/// `order` lists exactly the keys of `accounts`, each once.
pub open spec fn order_inv(m: Model) -> bool {
    &&& forall|i: int| 0 <= i < m.order.len() ==> m.accounts.contains_key(#[trigger] m.order[i])
    &&& forall|c: u16| #[trigger] m.accounts.contains_key(c) ==> m.order.contains(c)
    &&& forall|i: int, j: int| 0 <= i < j < m.order.len() ==> m.order[i] != m.order[j]
}

/// The stored transaction log holds only monetary records: deposits and
/// withdrawals, each carrying an amount, filed under their own id.
pub open spec fn txs_inv(m: Model) -> bool {
    forall|t: u32| #[trigger] m.txs.contains_key(t) ==> {
        let r = m.txs[t];
        &&& r.kind is Deposit || r.kind is Withdrawal
        &&& r.amount is Some
        &&& r.id == t
    }
}

/// The ledger invariant, re-established after every application of a
/// transaction record.
pub open spec fn inv(m: Model) -> bool {
    &&& accounts_inv(m)
    &&& order_inv(m)
    &&& txs_inv(m)
}

} // verus!
