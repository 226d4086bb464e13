use vstd::prelude::*;

use crate::model::{
    accepted, apply_deposit, apply_dispute, dispute_accepted, inv, resolve_accepted, spec_apply,
    validate, Model,
};
use crate::tx::{Tx, TxKind};

verus! {

/// The empty ledger satisfies the ledger invariant.
pub proof fn lemma_init_inv()
    ensures
        inv(Model::init()),
{
}

/// Law: applying any transaction record preserves the ledger invariant; in
/// particular, after every application each account still balances
/// (`total == available + held`, `held >= 0`).
pub proof fn lemma_apply_preserves_inv(m: Model, tx: Tx)
    requires
        inv(m),
    ensures
        inv(spec_apply(m, tx)),
{
    match tx.kind {
        TxKind::Deposit => {
            if accepted(m, tx) && !m.accounts.contains_key(tx.client_id) {
                assert(apply_deposit(m, tx).accounts.dom() =~= m.accounts.dom().insert(
                    tx.client_id,
                ));
                lemma_push_new_client(m, apply_deposit(m, tx), tx.client_id);
            }
        },
        TxKind::Withdrawal => {},
        TxKind::Dispute => {},
        TxKind::Resolve => {},
        TxKind::Chargeback => {},
        TxKind::Unrecognized => {},
    }
}

/// Appending a client id that the ledger has never seen keeps `order` a
/// duplicate-free listing of exactly the account keys.
proof fn lemma_push_new_client(m: Model, m2: Model, client_id: u16)
    requires
        inv(m),
        !m.accounts.contains_key(client_id),
        m2.order == m.order.push(client_id),
        m2.accounts.dom() == m.accounts.dom().insert(client_id),
    ensures
        forall|i: int| 0 <= i < m2.order.len() ==> m2.accounts.contains_key(#[trigger] m2.order[i]),
        forall|c: u16| #[trigger] m2.accounts.contains_key(c) ==> m2.order.contains(c),
        forall|i: int, j: int| 0 <= i < j < m2.order.len() ==> m2.order[i] != m2.order[j],
{
    assert forall|c: u16| #[trigger] m2.accounts.contains_key(c) implies m2.order.contains(c) by {
        if c == client_id {
            assert(m2.order[m.order.len() as int] == c);
        } else {
            assert(m.accounts.contains_key(c));
            let i = choose|i: int| 0 <= i < m.order.len() && m.order[i] == c;
            assert(m2.order[i] == c);
        }
    }
    assert forall|i: int, j: int| 0 <= i < j < m2.order.len() implies m2.order[i] != m2.order[j] by {
        if j == m.order.len() {
            assert(m.accounts.contains_key(m.order[i]));
        }
    }
}

/// Law: rejection is a no-op. A transaction record that is not accepted
/// leaves the whole ledger state — every account, the transaction log and
/// the dispute log — exactly as it was.
pub proof fn lemma_rejected_is_noop(m: Model, tx: Tx)
    requires
        !accepted(m, tx),
    ensures
        spec_apply(m, tx) == m,
{
}

/// Law: lock finality. Once an account is locked, no later transaction
/// record of any kind changes that account; in particular no deposit or
/// withdrawal for that client ever changes its `available` or `total` again.
pub proof fn lemma_lock_finality(m: Model, tx: Tx, client_id: u16)
    requires
        m.accounts.contains_key(client_id),
        m.accounts[client_id].locked,
    ensures
        spec_apply(m, tx).accounts.contains_key(client_id),
        spec_apply(m, tx).accounts[client_id] == m.accounts[client_id],
{
}

/// Law: dispute round-trip. Whenever a dispute is accepted, the matching
/// resolve applied right after it is accepted too, and together they leave
/// the client's `available`, `held`, `total` and `locked` exactly as they
/// were before the dispute.
pub proof fn lemma_dispute_resolve_round_trip(m: Model, dtx: Tx, rtx: Tx)
    requires
        dtx.kind is Dispute,
        rtx.kind is Resolve,
        rtx.client_id == dtx.client_id,
        rtx.id == dtx.id,
        dispute_accepted(m, dtx),
    ensures
        ({
            let m1 = spec_apply(m, dtx);
            let m2 = spec_apply(m1, rtx);
            &&& resolve_accepted(m1, rtx)
            &&& m2.accounts.contains_key(dtx.client_id)
            &&& m2.accounts[dtx.client_id] == m.accounts[dtx.client_id]
        }),
{
    let m1 = spec_apply(m, dtx);
    let m2 = spec_apply(m1, rtx);
    let amount = validate(m, dtx.client_id, dtx.id, TxKind::Dispute).unwrap();
    assert(m1 == apply_dispute(m, dtx));
    assert(m1.disputes[rtx.id] == amount);
    assert(resolve_accepted(m1, rtx));
    assert(m2.accounts[dtx.client_id] == m.accounts[dtx.client_id]);
}

} // verus!
