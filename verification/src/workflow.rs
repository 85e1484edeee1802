//! The transfer-and-register workflow: what is planned when it starts, and
//! what its settlement does to the allow-list.
//!
//! One run goes from issued to settled. It is issued when the owner asks for
//! a transfer: the outbound call and the callback are planned together. It is
//! settled when the callback runs with the outbound call's one result, and
//! only a success puts the recipient on the allow-list.

use vstd::prelude::*;

use crate::context::{Context, PromiseResult};
use crate::error::Error;

verus! {

/// The gas that the outbound transfer may use.
pub const GAS_FOR_FT_TRANSFER_CALL: u64 = 60_000_000_000_000;

/// The gas that the callback may use.
pub const GAS_FOR_ADD_WHITELIST_CALL: u64 = 30_000_000_000_000;

/// The callback takes no deposit.
pub const NO_DEPOSIT: u128 = 0;

/// The deposit that the counterpart asks for with every transfer.
pub const ONE_YOCTO: u128 = 1;

/// The counterpart's method that moves the tokens.
pub const FT_TRANSFER_METHOD: &'static str = "ft_transfer";

/// The ledger's own method that the callback runs.
pub const ADD_WHITELIST_METHOD: &'static str = "add_whitelist";

/// One request to move `amount` to `recipient`, as `caller` made it. It lives
/// for the one call that plans the workflow; nothing of it is kept.
#[derive(Clone, Debug)]
pub struct TransferIntent {
    pub recipient: String,
    pub amount: u128,
    pub caller: String,
}

/// What the counterpart is asked to do: move `amount` to `receiver_id`.
#[derive(Clone, Debug)]
pub struct TransferRequest {
    pub receiver_id: String,
    pub amount: u128,
}

/// The outbound call: which account and method it goes to, what it asks for,
/// and what it may spend.
#[derive(Clone, Debug)]
pub struct OutboundTransfer {
    pub account_id: String,
    pub method_name: String,
    pub request: TransferRequest,
    pub deposit: u128,
    pub gas: u64,
}

/// The callback that runs when the outbound call has ended.
#[derive(Clone, Debug)]
pub struct RegisterCallback {
    pub account_id: String,
    pub method_name: String,
    pub recipient: String,
    pub deposit: u128,
    pub gas: u64,
}

/// The two pending actions of one transfer-and-register workflow.
#[derive(Clone, Debug)]
pub struct TransferPlan {
    pub intent: TransferIntent,
    pub outbound: OutboundTransfer,
    pub callback: RegisterCallback,
}

impl TransferPlan {
    /// The plan for moving `amount` to `recipient` at the request of
    /// `caller`: the outbound call goes to `counterpart`, the callback to
    /// `current_account`.
    pub open spec fn is_for(
        &self,
        caller: Seq<char>,
        counterpart: Seq<char>,
        current_account: Seq<char>,
        recipient: Seq<char>,
        amount: u128,
    ) -> bool {
        &&& self.intent.recipient@ == recipient
        &&& self.intent.amount == amount
        &&& self.intent.caller@ == caller
        &&& self.outbound.account_id@ == counterpart
        &&& self.outbound.method_name@ == FT_TRANSFER_METHOD@
        &&& self.outbound.request.receiver_id@ == recipient
        &&& self.outbound.request.amount == amount
        &&& self.outbound.deposit == ONE_YOCTO
        &&& self.outbound.gas == GAS_FOR_FT_TRANSFER_CALL
        &&& self.callback.account_id@ == current_account
        &&& self.callback.method_name@ == ADD_WHITELIST_METHOD@
        &&& self.callback.recipient@ == recipient
        &&& self.callback.deposit == NO_DEPOSIT
        &&& self.callback.gas == GAS_FOR_ADD_WHITELIST_CALL
    }
}

/// One run of the callback: for which account, and whether the outbound
/// transfer had succeeded.
pub struct Settlement {
    pub account: Seq<char>,
    pub succeeded: bool,
}

/// What one settlement does to the allow-list: a success adds its account, a
/// failure changes nothing.
pub open spec fn settle(allowed: Set<Seq<char>>, settlement: Settlement) -> Set<Seq<char>> {
    if settlement.succeeded {
        allowed.insert(settlement.account)
    } else {
        allowed
    }
}

/// The allow-list of a ledger that started with an empty one and has seen
/// the settlements of `log`, in that order.
pub open spec fn allowed_after(log: Seq<Settlement>) -> Set<Seq<char>>
    decreases log.len(),
{
    if log.len() == 0 {
        Set::empty()
    } else {
        settle(allowed_after(log.drop_last()), log.last())
    }
}

/// An account is on the allow-list exactly when an earlier settlement for it
/// reported success: never after failures alone, and never without a
/// settlement.
pub proof fn lemma_allow_list_gating(log: Seq<Settlement>, account: Seq<char>)
    ensures
        allowed_after(log).contains(account) <==> exists|i: int|
            0 <= i < log.len() && (#[trigger] log[i]).account == account && log[i].succeeded,
    decreases log.len(),
{
    if log.len() > 0 {
        let before = log.drop_last();
        lemma_allow_list_gating(before, account);
        if allowed_after(log).contains(account) {
            if allowed_after(before).contains(account) {
                let i = choose|i: int|
                    0 <= i < before.len() && (#[trigger] before[i]).account == account
                        && before[i].succeeded;
                assert(log[i].account == account && log[i].succeeded);
            } else {
                assert(log[log.len() - 1].account == account && log[log.len() - 1].succeeded);
            }
        }
        if exists|i: int|
            0 <= i < log.len() && (#[trigger] log[i]).account == account && log[i].succeeded {
            let i = choose|i: int|
                0 <= i < log.len() && (#[trigger] log[i]).account == account && log[i].succeeded;
            if i < before.len() {
                assert(before[i].account == account && before[i].succeeded);
            }
        }
    }
}

/// One more settlement does to the allow-list what `settle` says.
pub proof fn lemma_allowed_after_push(log: Seq<Settlement>, settlement: Settlement)
    ensures
        allowed_after(log.push(settlement)) == settle(allowed_after(log), settlement),
{
    assert(log.push(settlement).drop_last() =~= log);
}

/// No settlement takes an account off the allow-list.
pub proof fn lemma_allow_list_grows(log: Seq<Settlement>, settlement: Settlement)
    ensures
        allowed_after(log).subset_of(allowed_after(log.push(settlement))),
{
    assert(log.push(settlement).drop_last() =~= log);
}

/// What the callback learns from the promise results: there must be exactly
/// one, and it says whether the outbound call succeeded.
pub open spec fn promise_outcome(results: Seq<PromiseResult>) -> Result<bool, Error> {
    if results.len() != 1 {
        Err(Error::CallbackResultCountMismatch)
    } else {
        Ok(results[0] is Successful)
    }
}

/// Whether the one promise that the callback waits for has succeeded. Fails
/// with `CallbackResultCountMismatch` when there is not exactly one result.
pub fn is_promise_success(ctx: &Context) -> (r: Result<bool, Error>)
    ensures
        r == promise_outcome(ctx.promise_results@),
{
    if ctx.promise_results.len() != 1 {
        return Err(Error::CallbackResultCountMismatch);
    }
    match &ctx.promise_results[0] {
        PromiseResult::Successful(_) => Ok(true),
        _ => Ok(false),
    }
}

} // verus!
