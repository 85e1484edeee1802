//! What a call learns from the host environment, as plain values.

use vstd::prelude::*;

verus! {

/// How a promise that a callback waits for has ended.
#[derive(Clone, Debug, PartialEq, Eq)]
pub enum PromiseResult {
    /// The promise has not ended yet.
    NotReady,
    /// The call succeeded, with the bytes that it returned.
    Successful(Vec<u8>),
    /// The call failed: it was rejected, ran out of gas, or ended in any other way.
    Failed,
}

/// The environment of one call.
#[derive(Clone, Debug)]
pub struct Context {
    /// The account that the ledger itself runs under.
    pub current_account_id: String,
    /// The account that made this call.
    pub predecessor_account_id: String,
    /// The deposit attached to this call.
    pub attached_deposit: u128,
    /// Whether the ledger's state has been written before.
    pub state_exists: bool,
    /// The bytes of storage that one account's record occupies.
    pub account_storage_usage: u64,
    /// The price of one byte of storage.
    pub storage_byte_cost: u128,
    /// The results of the promises that this call is the callback of.
    pub promise_results: Vec<PromiseResult>,
}

} // verus!
