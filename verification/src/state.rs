use std::collections::HashMap;
use vstd::prelude::*;

use crate::account::Account;
use crate::laws::lemma_apply_preserves_inv;
use crate::model::{
    apply_chargeback, apply_deposit, apply_dispute, apply_resolve, apply_withdrawal, inv,
    spec_apply, validate, Model,
};
use crate::tx::{Tx, TxKind};

verus! {

broadcast use vstd::std_specs::hash::group_hash_axioms;

/// The ledger: all account, transaction and dispute state, mutated only
/// through [`State::handle_tx`].
///
/// Its view (`self@`) is the mathematical [`Model`]; every method's contract
/// is stated over that view.
pub struct State {
    clients: HashMap<u16, Account>,
    order: Vec<u16>,
    txs: HashMap<u32, Tx>,
    disputes: HashMap<u32, u64>,
}

impl View for State {
    type V = Model;

    closed spec fn view(&self) -> Model {
        Model {
            accounts: self.clients@,
            order: self.order@,
            txs: self.txs@,
            disputes: self.disputes@,
        }
    }
}

impl Default for State {
    /// An empty ledger, same as [`State::new`].
    fn default() -> (s: State)
        ensures
            s@ == Model::init(),
    {
        State::new()
    }
}

impl State {
    /// Builds an empty ledger: no accounts, no logged transactions, no
    /// open disputes.
    pub fn new() -> (s: State)
        ensures
            s@ == Model::init(),
    {
        let s = State {
            clients: HashMap::new(),
            order: Vec::new(),
            txs: HashMap::new(),
            disputes: HashMap::new(),
        };
        proof {
            assert(s@ =~= Model::init());
        }
        s
    }

    /// Applies one transaction record, dispatching on its kind; a record of
    /// unrecognized kind is rejected. The new state is exactly
    /// [`spec_apply`] of the old state, and the ledger invariant is
    /// preserved.
    pub fn handle_tx(&mut self, tx: Tx)
        requires
            tx.kind is Deposit || tx.kind is Withdrawal ==> tx.amount is Some,
        ensures
            final(self)@ == spec_apply(old(self)@, tx),
            inv(old(self)@) ==> inv(final(self)@),
    {
        match tx.kind {
            TxKind::Deposit => self.deposit(tx),
            TxKind::Withdrawal => self.withdrawal(tx),
            TxKind::Dispute => self.dispute(tx),
            TxKind::Resolve => self.resolve(tx),
            TxKind::Chargeback => self.chargeback(tx),
            TxKind::Unrecognized => {},
        }
        proof {
            if inv(old(self)@) {
                lemma_apply_preserves_inv(old(self)@, tx);
            }
        }
    }

    /// The dispute validator: looks the referenced transaction up and
    /// decides whether the claim is eligible, returning the referenced
    /// amount on success. Returns exactly what the spec-level
    /// [`validate`] returns.
    fn dispute_checks(&self, tx: &Tx, expected: TxKind) -> (r: Option<u64>)
        ensures
            r == validate(self@, tx.client_id, tx.id, expected),
    {
        let stored = match self.txs.get(&tx.id) {
            Some(s) => *s,
            None => {
                return None;
            },
        };
        if matches!(expected, TxKind::Dispute) && matches!(stored.kind, TxKind::Deposit) {
            return None;
        }
        if (matches!(expected, TxKind::Resolve) || matches!(expected, TxKind::Chargeback))
            && !stored.disputed {
            return None;
        }
        if !self.clients.contains_key(&tx.client_id) {
            return None;
        }
        if stored.client_id != tx.client_id {
            return None;
        }
        stored.amount
    }

    /// Deposit: credit `available` and `total`, creating the account on a
    /// client's first deposit, and log the record. Rejected if the account
    /// is locked or the credit would overflow the fixed-point range.
    fn deposit(&mut self, tx: Tx)
        requires
            tx.amount is Some,
        ensures
            final(self)@ == apply_deposit(old(self)@, tx),
    {
        let amount = tx.amount.unwrap();
        let existing = match self.clients.get(&tx.client_id) {
            Some(a) => Some(*a),
            None => None,
        };
        match existing {
            Some(a) => {
                if a.locked {
                    return;
                }
                if amount > u64::MAX - a.available || amount > u64::MAX - a.total {
                    return;
                }
                let credited = Account {
                    id: a.id,
                    available: a.available + amount,
                    held: a.held,
                    total: a.total + amount,
                    locked: a.locked,
                };
                self.clients.insert(tx.client_id, credited);
                self.txs.insert(tx.id, tx);
                proof {
                    assert(self@ =~= apply_deposit(old(self)@, tx));
                }
            },
            None => {
                let fresh = Account {
                    id: tx.client_id,
                    available: amount,
                    held: 0,
                    total: amount,
                    locked: false,
                };
                self.clients.insert(tx.client_id, fresh);
                self.order.push(tx.client_id);
                self.txs.insert(tx.id, tx);
                proof {
                    assert(self@ =~= apply_deposit(old(self)@, tx));
                }
            },
        }
    }

    /// Withdrawal: debit `available` and `total` and log the record.
    /// Rejected if the account is unknown or locked, or holds less than the
    /// requested amount.
    fn withdrawal(&mut self, tx: Tx)
        requires
            tx.amount is Some,
        ensures
            final(self)@ == apply_withdrawal(old(self)@, tx),
    {
        let amount = tx.amount.unwrap();
        let a = match self.clients.get(&tx.client_id) {
            Some(a) => *a,
            None => {
                return;
            },
        };
        if a.locked {
            return;
        }
        if amount > a.available || amount > a.total {
            return;
        }
        let debited = Account {
            id: a.id,
            available: a.available - amount,
            held: a.held,
            total: a.total - amount,
            locked: a.locked,
        };
        self.clients.insert(tx.client_id, debited);
        self.txs.insert(tx.id, tx);
        proof {
            assert(self@ =~= apply_withdrawal(old(self)@, tx));
        }
    }

    /// Dispute: freeze the referenced amount, moving it from `available` to
    /// `held` (`total` unchanged), record it in the dispute log and flag the
    /// referenced transaction. Rejected when the validator fails, the
    /// amount is zero, the account is locked, or the freeze does not fit
    /// the balances.
    fn dispute(&mut self, tx: Tx)
        ensures
            final(self)@ == apply_dispute(old(self)@, tx),
    {
        let amount = match self.dispute_checks(&tx, TxKind::Dispute) {
            Some(v) => v,
            None => {
                return;
            },
        };
        if amount == 0 {
            return;
        }
        let a = *self.clients.get(&tx.client_id).unwrap();
        if a.locked {
            return;
        }
        if amount > a.available || amount > u64::MAX - a.held {
            return;
        }
        let frozen = Account {
            id: a.id,
            available: a.available - amount,
            held: a.held + amount,
            total: a.total,
            locked: a.locked,
        };
        self.clients.insert(tx.client_id, frozen);
        self.disputes.insert(tx.id, amount);
        let stored = *self.txs.get(&tx.id).unwrap();
        let flagged = Tx {
            kind: stored.kind,
            client_id: stored.client_id,
            id: stored.id,
            amount: stored.amount,
            disputed: true,
        };
        self.txs.insert(tx.id, flagged);
        proof {
            assert(self@ =~= apply_dispute(old(self)@, tx));
        }
    }

    /// Resolve: release the frozen amount recorded in the dispute log from
    /// `held` back to `available` (`total` unchanged) and clear the
    /// disputed flag. Rejected when the validator fails, the account is
    /// locked, or the release does not fit the balances.
    fn resolve(&mut self, tx: Tx)
        ensures
            final(self)@ == apply_resolve(old(self)@, tx),
    {
        if self.dispute_checks(&tx, TxKind::Resolve).is_none() {
            return;
        }
        let a = *self.clients.get(&tx.client_id).unwrap();
        if a.locked {
            return;
        }
        let amount = match self.disputes.get(&tx.id) {
            Some(v) => *v,
            None => {
                return;
            },
        };
        if amount > a.held || amount > u64::MAX - a.available {
            return;
        }
        let released = Account {
            id: a.id,
            available: a.available + amount,
            held: a.held - amount,
            total: a.total,
            locked: a.locked,
        };
        self.clients.insert(tx.client_id, released);
        let stored = *self.txs.get(&tx.id).unwrap();
        let cleared = Tx {
            kind: stored.kind,
            client_id: stored.client_id,
            id: stored.id,
            amount: stored.amount,
            disputed: false,
        };
        self.txs.insert(tx.id, cleared);
        proof {
            assert(self@ =~= apply_resolve(old(self)@, tx));
        }
    }

    /// Chargeback: permanently remove the frozen amount from `held` and
    /// `total` and lock the account. Rejected when the validator fails, the
    /// account is already locked, or the removal does not fit the balances.
    fn chargeback(&mut self, tx: Tx)
        ensures
            final(self)@ == apply_chargeback(old(self)@, tx),
    {
        if self.dispute_checks(&tx, TxKind::Chargeback).is_none() {
            return;
        }
        let a = *self.clients.get(&tx.client_id).unwrap();
        if a.locked {
            return;
        }
        let amount = match self.disputes.get(&tx.id) {
            Some(v) => *v,
            None => {
                return;
            },
        };
        if amount > a.held || amount > a.total {
            return;
        }
        let charged = Account {
            id: a.id,
            available: a.available,
            held: a.held - amount,
            total: a.total - amount,
            locked: true,
        };
        self.clients.insert(tx.client_id, charged);
        proof {
            assert(self@ =~= apply_chargeback(old(self)@, tx));
        }
    }

    /// Looks one client's account up.
    pub fn account(&self, client_id: u16) -> (r: Option<Account>)
        ensures
            r == (if self@.accounts.contains_key(client_id) {
                Some(self@.accounts[client_id])
            } else {
                None::<Account>
            }),
    {
        match self.clients.get(&client_id) {
            Some(a) => Some(*a),
            None => None,
        }
    }

    /// Reads out every account that has ever been created, in creation
    /// order. When the ledger invariant holds — and [`State::handle_tx`]
    /// preserves it from the empty ledger on — the result lists each
    /// account exactly once, following `self@.order`.
    pub fn snapshot(&self) -> (r: Vec<Account>)
        ensures
            r@.len() <= self@.order.len(),
            forall|i: int|
                0 <= i < r@.len() ==> exists|c: u16|
                    self@.accounts.contains_key(c) && #[trigger] r@[i] == self@.accounts[c],
            inv(self@) ==> {
                &&& r@.len() == self@.order.len()
                &&& forall|i: int|
                    0 <= i < r@.len() ==> #[trigger] r@[i] == self@.accounts[self@.order[i]]
            },
    {
        let mut r: Vec<Account> = Vec::new();
        let mut idx: usize = 0;
        while idx < self.order.len()
            invariant
                idx <= self.order.len(),
                r@.len() <= idx,
                forall|i: int|
                    0 <= i < r@.len() ==> exists|c: u16|
                        self@.accounts.contains_key(c) && #[trigger] r@[i] == self@.accounts[c],
                inv(self@) ==> {
                    &&& r@.len() == idx
                    &&& forall|i: int|
                        0 <= i < r@.len() ==> #[trigger] r@[i] == self@.accounts[self@.order[i]]
                },
            decreases self.order.len() - idx,
        {
            let client_id = self.order[idx];
            proof {
                if inv(self@) {
                    assert(self@.accounts.contains_key(self@.order[idx as int]));
                }
            }
            match self.clients.get(&client_id) {
                Some(a) => r.push(*a),
                None => {},
            }
            idx = idx + 1;
        }
        r
    }
}

} // verus!
