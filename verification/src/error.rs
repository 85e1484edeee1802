//! The errors that the ledger's entry points report.

use vstd::prelude::*;

verus! {

/// Why a call was rejected. No call that returns an error has changed any state.
#[derive(Clone, Copy, Debug, PartialEq, Eq, Structural)]
pub enum Error {
    /// An account identifier does not have the required format.
    InvalidAccount,
    /// The caller is not the owner of the ledger.
    Unauthorized,
    /// The account that was to receive tokens is not registered.
    AccountNotRegistered,
    /// The deposit attached to a registration does not cover its storage.
    InsufficientDeposit,
    /// The account is not registered or holds less than the amount asked for.
    InsufficientBalance,
    /// An amount does not fit into 128 bits.
    Overflow,
    /// Sender and receiver of a transfer are the same account.
    SelfTransfer,
    /// A transfer of nothing.
    ZeroAmount,
    /// The ledger's state exists already.
    AlreadyInitialized,
    /// The callback did not find exactly one promise result.
    CallbackResultCountMismatch,
    /// An account that still holds tokens cannot be unregistered.
    NonZeroBalance,
    /// The token's metadata is not well formed.
    InvalidMetadata,
}

} // verus!
