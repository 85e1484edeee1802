//! A ledger's contents as plain data.

use vstd::prelude::*;

use crate::account::{key_at, valid_account_id};
use crate::ledger::entries::{distinct_keys, entries_map};
use crate::ledger::model::LedgerView;
use crate::sum::sum_values;

verus! {

/// A ledger's contents as plain data, the form in which they are kept
/// between calls.
#[derive(Debug)]
pub struct LedgerState {
    /// The registered accounts.
    pub account_ids: Vec<String>,
    /// What each of them holds, in the same order.
    pub balances: Vec<u128>,
    /// The number of tokens in circulation.
    pub total_supply: u128,
    /// The bytes of storage that one account's record occupies.
    pub account_storage_usage: u64,
    /// The price of one byte of storage.
    pub storage_price_per_byte: u128,
}

impl View for LedgerState {
    type V = LedgerView;

    open spec fn view(&self) -> LedgerView {
        LedgerView {
            balances: entries_map(self.account_ids@, self.balances@, self.account_ids@.len()),
            total_supply: self.total_supply as nat,
            account_storage_usage: self.account_storage_usage as nat,
            storage_price_per_byte: self.storage_price_per_byte as nat,
        }
    }
}

impl LedgerState {
    /// Data that describe a ledger: one balance for each account, every
    /// account listed once and with a valid identifier, the balances adding
    /// up to the total supply, and a registration price that fits into 128
    /// bits.
    pub open spec fn valid(&self) -> bool {
        &&& self.account_ids@.len() == self.balances@.len()
        &&& distinct_keys(self.account_ids@)
        &&& forall|i: int|
            0 <= i < self.account_ids@.len() ==> valid_account_id(
                #[trigger] key_at(self.account_ids@, i),
            )
        &&& sum_values(self@.balances) == self.total_supply
        &&& self.account_storage_usage * self.storage_price_per_byte <= u128::MAX
    }
}

} // verus!
