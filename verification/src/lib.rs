//! A fungible-token ledger with storage-paid account registration and an
//! allow-list that is filled only by the callback of a confirmed transfer.
//!
//! The host environment (caller identity, attached deposit, promise results)
//! reaches the library as plain values in a [`Context`]; what the host has to
//! do next (issue a call, schedule a callback, refund a deposit, publish a
//! notice) leaves it as plain values too.

pub mod account;
pub mod allow_list;
pub mod context;
pub mod contract;
pub mod error;
pub mod events;
pub mod ledger;
pub mod metadata;
pub mod sum;
pub mod workflow;

pub use allow_list::AllowList;
pub use context::{Context, PromiseResult};
pub use contract::{Contract, ContractState};
pub use error::Error;
pub use events::{MintEvent, TransferEvent};
pub use ledger::{
    Ledger, LedgerState, RegistrationOutcome, StorageBalanceBounds, UnregistrationOutcome,
};
pub use metadata::TokenMetadata;
pub use workflow::{
    is_promise_success, OutboundTransfer, RegisterCallback, TransferIntent, TransferPlan,
    TransferRequest,
};
