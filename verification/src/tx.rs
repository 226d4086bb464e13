use vstd::prelude::*;

verus! {

/// The kind of a transaction record.
///
/// The five monetary operations the ledger understands, plus a catch-all for
/// records whose kind field named none of them; those are rejected by the
/// dispatcher without touching any state.
#[derive(Clone, Copy, Debug, PartialEq, Eq)]
pub enum TxKind {
    Deposit,
    Withdrawal,
    Dispute,
    Resolve,
    Chargeback,
    Unrecognized,
}

/// One validated transaction record, as handed to the ledger by the
/// ingestion layer.
///
/// `amount` is the fixed-point monetary value (four fractional digits); it is
/// present for deposits and withdrawals and absent for the dispute-lifecycle
/// kinds, which reference the amount of an earlier transaction instead.
/// `disputed` is bookkeeping the ledger maintains on the records it stores;
/// the ingestion layer always hands in `false`.
#[derive(Clone, Copy, Debug)]
pub struct Tx {
    pub kind: TxKind,
    pub client_id: u16,
    pub id: u32,
    pub amount: Option<u64>,
    pub disputed: bool,
}

impl Tx {
    /// Builds a fresh (not yet disputed) record, as the ingestion layer does.
    pub fn new(kind: TxKind, client_id: u16, id: u32, amount: Option<u64>) -> (tx: Tx)
        ensures
            tx == (Tx { kind, client_id, id, amount, disputed: false }),
    {
        Tx { kind, client_id, id, amount, disputed: false }
    }
}

} // verus!
