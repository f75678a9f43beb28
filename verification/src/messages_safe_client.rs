//! What a validator answers about a transaction: signed only, or executed
//! with its effects and events.

use vstd::prelude::*;

verus! {

/// The states of a validator's answer about a transaction. The transaction,
/// certificate, effects and events are carried as given.
#[derive(Clone, Debug)]
pub enum PlainTransactionInfoResponse<Tx, SignedTx, CertifiedTx, SignedEffects, Events> {
    /// The validator signed the transaction.
    Signed(SignedTx),
    /// The validator executed the certified transaction.
    ExecutedWithCert(CertifiedTx, SignedEffects, Events),
    /// The validator executed the transaction without a certificate.
    ExecutedWithoutCert(Tx, SignedEffects, Events),
}

impl<Tx, SignedTx, CertifiedTx, SignedEffects, Events> PlainTransactionInfoResponse<
    Tx,
    SignedTx,
    CertifiedTx,
    SignedEffects,
    Events,
> {
    /// Whether the transaction was executed.
    pub fn is_executed(&self) -> (r: bool)
        ensures
            r == !(*self is Signed),
    {
        match self {
            PlainTransactionInfoResponse::Signed(_) => false,
            PlainTransactionInfoResponse::ExecutedWithCert(_, _, _)
            | PlainTransactionInfoResponse::ExecutedWithoutCert(_, _, _) => true,
        }
    }
}

} // verus!
