//! What holds of every ledger: conservation, atomicity of transfers, and
//! registration before balance.

use vstd::prelude::*;

use crate::error::Error;
use crate::ledger::model::{LedgerView, Operation};
use crate::sum::{
    lemma_sum_bounds_value, lemma_sum_insert_new, lemma_sum_remove, lemma_sum_update,
};

verus! {

/// More or less for a registered account is as much more or less in the sum.
pub proof fn lemma_credited_conserves(ledger: LedgerView, account: Seq<char>, amount: int)
    requires
        ledger.conserved(),
        ledger.is_registered(account),
        ledger.balance(account) + amount >= 0,
    ensures
        ledger.credited(account, amount).conserved(),
        ledger.credited(account, amount).balances.dom() == ledger.balances.dom(),
        ledger.credited(account, amount).total_supply == ledger.total_supply + amount,
{
    lemma_sum_update(ledger.balances, account, (ledger.balance(account) + amount) as nat);
    lemma_sum_bounds_value(ledger.balances, account);
    assert(ledger.credited(account, amount).balances.dom() =~= ledger.balances.dom());
}

/// Conservation, one step: an operation on a ledger whose balances add up to
/// the total supply leaves one whose balances do, whether it fails or not;
/// and only a deposit or a withdrawal changes the total supply.
pub proof fn lemma_operation_conserves(ledger: LedgerView, operation: Operation)
    requires
        ledger.conserved(),
    ensures
        ledger.after(operation).conserved(),
        !(operation is Deposit || operation is Withdraw) ==> ledger.after(operation).total_supply
            == ledger.total_supply,
{
    match operation {
        Operation::Register { account, attached_deposit } => {
            if !ledger.is_registered(account) {
                lemma_sum_insert_new(ledger.balances, account, 0);
            }
        },
        Operation::Unregister { account } => {
            if ledger.is_registered(account) {
                lemma_sum_remove(ledger.balances, account);
            }
        },
        Operation::Deposit { account, amount } => {
            if ledger.deposit_result(account, amount) is Ok {
                lemma_credited_conserves(ledger, account, amount as int);
            }
        },
        Operation::Withdraw { account, amount } => {
            if ledger.withdraw_result(account, amount) is Ok {
                lemma_credited_conserves(ledger, account, -(amount as int));
            }
        },
        Operation::Transfer { sender, receiver, amount } => {
            if ledger.transfer_result(sender, receiver, amount) is Ok {
                lemma_credited_conserves(ledger, sender, -(amount as int));
                let taken = ledger.credited(sender, -(amount as int));
                assert(taken.is_registered(receiver));
                lemma_credited_conserves(taken, receiver, amount as int);
            }
        },
    }
}

/// Conservation: after any sequence of operations, whichever of them fail,
/// the balances of the registered accounts add up to the total supply.
pub proof fn lemma_conservation(ledger: LedgerView, operations: Seq<Operation>)
    requires
        ledger.conserved(),
    ensures
        ledger.after_all(operations).conserved(),
    decreases operations.len(),
{
    if operations.len() > 0 {
        lemma_conservation(ledger, operations.drop_last());
        lemma_operation_conserves(ledger.after_all(operations.drop_last()), operations.last());
    }
}

/// Atomicity: a transfer that fails, for whatever reason, leaves every
/// balance as it was.
pub proof fn lemma_failed_transfer_changes_nothing(
    ledger: LedgerView,
    sender: Seq<char>,
    receiver: Seq<char>,
    amount: u128,
)
    requires
        ledger.transfer_result(sender, receiver, amount) is Err,
    ensures
        ledger.after(Operation::Transfer { sender, receiver, amount }) == ledger,
{
}

/// Registration gating: a deposit or a transfer into an account that is not
/// registered fails with `AccountNotRegistered`, and the account stays
/// unregistered.
pub proof fn lemma_registration_gating(
    ledger: LedgerView,
    sender: Seq<char>,
    receiver: Seq<char>,
    amount: u128,
)
    requires
        !ledger.is_registered(receiver),
    ensures
        ledger.deposit_result(receiver, amount) == Err::<(), Error>(Error::AccountNotRegistered),
        ledger.transfer_result(sender, receiver, amount) == Err::<(), Error>(
            Error::AccountNotRegistered,
        ),
        ledger.after(Operation::Deposit { account: receiver, amount }) == ledger,
        ledger.after(Operation::Transfer { sender, receiver, amount }) == ledger,
{
}

} // verus!
