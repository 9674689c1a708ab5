use vstd::prelude::*;

verus! {

/// The error kinds that ledger operations report.
#[derive(Debug, Clone, Copy, PartialEq, Eq, Structural)]
pub enum LedgerError {
    /// A named user is not registered in the pool.
    UnknownUser,
    /// A user with the same name is already registered.
    UserExists,
    /// The transaction id is not in the pending table.
    TxNotFound,
    /// The pending transaction is addressed to a different receiver.
    NotYours,
    /// Only the TOKEN transfer type is supported.
    UnsupportedTxType,
    /// A command's arguments do not fit its shape.
    MalformedCommand,
    /// The sender's balance does not cover the amount.
    InsufficientBalance,
    /// Crediting the receiver would overflow the wallet.
    BalanceOverflow,
    /// A signature does not verify against the canonical message.
    BadSignature,
    /// Generating a fresh key pair failed.
    CryptoInitError,
    /// The stored key material cannot sign (for instance after a reload).
    SignError,
    /// Signature verification could not be performed.
    VerifyError,
    /// Writing or reading a snapshot failed.
    SnapshotIOError,
    /// A chain or snapshot refers to a parent that does not exist.
    BrokenChain,
    /// A transaction id is already recorded where it would be appended.
    DuplicateTransaction,
    /// The sender's and receiver's records of one transaction disagree.
    HashMismatch,
}

impl LedgerError {
    /// A short text for operator-facing messages.
    pub fn message(&self) -> (r: &'static str)
    {
        match self {
            LedgerError::UnknownUser => "user does not exist",
            LedgerError::UserExists => "user already exists",
            LedgerError::TxNotFound => "transaction not found",
            LedgerError::NotYours => "transaction is not pending for this user",
            LedgerError::UnsupportedTxType => "transaction type is not supported",
            LedgerError::MalformedCommand => "malformed command",
            LedgerError::InsufficientBalance => "insufficient balance",
            LedgerError::BalanceOverflow => "balance would overflow",
            LedgerError::BadSignature => "signature verification failed",
            LedgerError::CryptoInitError => "failed to generate key pair",
            LedgerError::SignError => "failed to sign transaction",
            LedgerError::VerifyError => "failed to verify signature",
            LedgerError::SnapshotIOError => "failed to read or write snapshot",
            LedgerError::BrokenChain => "parent transaction not found",
            LedgerError::DuplicateTransaction => "transaction id already recorded",
            LedgerError::HashMismatch => "transaction records disagree",
        }
    }
}

} // verus!
