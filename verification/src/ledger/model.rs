//! What a ledger is, and what each operation makes of it.

use vstd::prelude::*;

use crate::account::valid_account_id;
use crate::error::Error;
use crate::sum::sum_values;

verus! {

/// What a ledger is: which accounts are registered, what each holds, and what
/// a registration costs.
pub struct LedgerView {
    /// The balance of each registered account.
    pub balances: Map<Seq<char>, nat>,
    /// The number of tokens in circulation.
    pub total_supply: nat,
    /// The bytes of storage that one account's record occupies.
    pub account_storage_usage: nat,
    /// The price of one byte of storage.
    pub storage_price_per_byte: nat,
}

/// What a call of `register` did, and what the caller gets back.
#[derive(Clone, Copy, Debug, PartialEq, Eq, Structural)]
pub struct RegistrationOutcome {
    /// Whether the account was registered by this call.
    pub newly_registered: bool,
    /// The part of the deposit that pays for the new record's storage.
    pub charged: u128,
    /// The part of the deposit that goes back to the caller.
    pub refund: u128,
}

/// What a call of `unregister` did, and what the account's holder gets back.
#[derive(Clone, Copy, Debug, PartialEq, Eq, Structural)]
pub struct UnregistrationOutcome {
    /// Whether there was a registration, which this call removed.
    pub removed: bool,
    /// The price of the storage that the removed record had occupied.
    pub refund: u128,
}

/// The least and the greatest deposit that a registration takes.
#[derive(Clone, Copy, Debug, PartialEq, Eq, Structural)]
pub struct StorageBalanceBounds {
    pub min: u128,
    pub max: Option<u128>,
}

/// An operation on a ledger.
pub enum Operation {
    Register { account: Seq<char>, attached_deposit: u128 },
    Unregister { account: Seq<char> },
    Deposit { account: Seq<char>, amount: u128 },
    Withdraw { account: Seq<char>, amount: u128 },
    Transfer { sender: Seq<char>, receiver: Seq<char>, amount: u128 },
}

impl LedgerView {
    /// Whether `account` is registered.
    pub open spec fn is_registered(self, account: Seq<char>) -> bool {
        self.balances.dom().contains(account)
    }

    /// What `account` holds: nothing, if it is not registered.
    pub open spec fn balance(self, account: Seq<char>) -> nat {
        if self.is_registered(account) {
            self.balances[account]
        } else {
            0
        }
    }

    /// The price of the storage that one registration occupies.
    pub open spec fn registration_price(self) -> nat {
        self.account_storage_usage * self.storage_price_per_byte
    }

    /// The bytes of storage that the registered accounts occupy.
    pub open spec fn storage_used(self) -> nat {
        self.balances.dom().len() * self.account_storage_usage
    }

    /// What `deposit` answers.
    pub open spec fn deposit_result(self, account: Seq<char>, amount: u128) -> Result<(), Error> {
        if !self.is_registered(account) {
            Err(Error::AccountNotRegistered)
        } else if self.total_supply + amount > u128::MAX {
            Err(Error::Overflow)
        } else {
            Ok(())
        }
    }

    /// What `withdraw` answers.
    pub open spec fn withdraw_result(self, account: Seq<char>, amount: u128) -> Result<(), Error> {
        if !self.is_registered(account) || self.balance(account) < amount {
            Err(Error::InsufficientBalance)
        } else {
            Ok(())
        }
    }

    /// What `transfer` answers.
    pub open spec fn transfer_result(
        self,
        sender: Seq<char>,
        receiver: Seq<char>,
        amount: u128,
    ) -> Result<(), Error> {
        if !self.is_registered(receiver) {
            Err(Error::AccountNotRegistered)
        } else if sender == receiver {
            Err(Error::SelfTransfer)
        } else if amount == 0 {
            Err(Error::ZeroAmount)
        } else if !self.is_registered(sender) || self.balance(sender) < amount {
            Err(Error::InsufficientBalance)
        } else {
            Ok(())
        }
    }

    /// The balances of the registered accounts add up to the total supply.
    pub open spec fn conserved(self) -> bool {
        &&& self.balances.dom().finite()
        &&& sum_values(self.balances) == self.total_supply
    }

    /// The ledger with `amount` more for `account`, in its balance and in the
    /// total supply. For a negative `amount` it is so much less.
    pub open spec fn credited(self, account: Seq<char>, amount: int) -> LedgerView {
        LedgerView {
            balances: self.balances.insert(account, (self.balance(account) + amount) as nat),
            total_supply: (self.total_supply + amount) as nat,
            ..self
        }
    }

    /// The ledger after `operation`: one that fails leaves it as it is.
    pub open spec fn after(self, operation: Operation) -> LedgerView {
        match operation {
            Operation::Register { account, attached_deposit } => match self.register_result(
                account,
                attached_deposit,
            ) {
                Ok(outcome) if outcome.newly_registered => LedgerView {
                    balances: self.balances.insert(account, 0),
                    ..self
                },
                _ => self,
            },
            Operation::Unregister { account } => match self.unregister_result(account) {
                Ok(outcome) if outcome.removed => LedgerView {
                    balances: self.balances.remove(account),
                    ..self
                },
                _ => self,
            },
            Operation::Deposit { account, amount } => if self.deposit_result(account, amount)
                is Ok {
                self.credited(account, amount as int)
            } else {
                self
            },
            Operation::Withdraw { account, amount } => if self.withdraw_result(account, amount)
                is Ok {
                self.credited(account, -(amount as int))
            } else {
                self
            },
            Operation::Transfer { sender, receiver, amount } => if self.transfer_result(
                sender,
                receiver,
                amount,
            ) is Ok {
                self.credited(sender, -(amount as int)).credited(receiver, amount as int)
            } else {
                self
            },
        }
    }

    /// The ledger after the operations of `operations`, in that order.
    pub open spec fn after_all(self, operations: Seq<Operation>) -> LedgerView
        decreases operations.len(),
    {
        if operations.len() == 0 {
            self
        } else {
            self.after_all(operations.drop_last()).after(operations.last())
        }
    }

    /// What `register` answers.
    pub open spec fn register_result(self, account: Seq<char>, attached_deposit: u128) -> Result<
        RegistrationOutcome,
        Error,
    > {
        if self.is_registered(account) {
            Ok(
                RegistrationOutcome {
                    newly_registered: false,
                    charged: 0,
                    refund: attached_deposit,
                },
            )
        } else if !valid_account_id(account) {
            Err(Error::InvalidAccount)
        } else if attached_deposit < self.registration_price() {
            Err(Error::InsufficientDeposit)
        } else {
            Ok(
                RegistrationOutcome {
                    newly_registered: true,
                    charged: self.registration_price() as u128,
                    refund: (attached_deposit - self.registration_price()) as u128,
                },
            )
        }
    }

    /// What `unregister` answers.
    pub open spec fn unregister_result(self, account: Seq<char>) -> Result<
        UnregistrationOutcome,
        Error,
    > {
        if !self.is_registered(account) {
            Ok(UnregistrationOutcome { removed: false, refund: 0 })
        } else if self.balance(account) != 0 {
            Err(Error::NonZeroBalance)
        } else {
            Ok(UnregistrationOutcome { removed: true, refund: self.registration_price() as u128 })
        }
    }
}

} // verus!
