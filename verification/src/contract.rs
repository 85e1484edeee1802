//! The ledger service: the token, its owner, its metadata and the allow-list,
//! behind the entry points that the host calls.
//!
//! `Contract::transfer` plans the outbound transfer and the callback; the host
//! issues both. When the outbound call has ended, the host runs
//! `Contract::add_whitelist` with the call's result.

use vstd::prelude::*;

use crate::account::{is_valid_account, key_at, same_text, valid_account_id};
use crate::allow_list::{members_set, AllowList};
use crate::context::Context;
use crate::error::Error;
use crate::events::{MintEvent, TransferEvent, MINT_MEMO};
use crate::ledger::{
    Ledger, LedgerState, LedgerView, Operation, RegistrationOutcome, StorageBalanceBounds,
    UnregistrationOutcome,
};
use crate::metadata::{MetadataView, TokenMetadata};
use crate::workflow::{
    is_promise_success, promise_outcome, settle, OutboundTransfer, RegisterCallback, Settlement,
    TransferIntent, TransferPlan, TransferRequest, ADD_WHITELIST_METHOD, FT_TRANSFER_METHOD,
    GAS_FOR_ADD_WHITELIST_CALL, GAS_FOR_FT_TRANSFER_CALL, NO_DEPOSIT, ONE_YOCTO,
};

verus! {

/// What a ledger service is.
pub struct ContractView {
    /// The account that controls the ledger and receives the outbound calls.
    pub owner_id: Seq<char>,
    /// The balance ledger.
    pub token: LedgerView,
    /// The token's metadata.
    pub metadata: MetadataView,
    /// The accounts on the allow-list.
    pub allowed: Set<Seq<char>>,
}

/// A ledger service as plain data, the form in which it is kept between
/// calls: the owner, the ledger's contents, the metadata and the allow-list.
#[derive(Debug)]
pub struct ContractState {
    pub owner_id: String,
    pub token: LedgerState,
    pub metadata: TokenMetadata,
    pub allow_list: Vec<String>,
}

impl View for ContractState {
    type V = ContractView;

    open spec fn view(&self) -> ContractView {
        ContractView {
            owner_id: self.owner_id@,
            token: self.token@,
            metadata: self.metadata@,
            allowed: members_set(self.allow_list@),
        }
    }
}

impl ContractState {
    /// Data that describe a ledger service: those of a ledger, with valid
    /// metadata and valid identifiers for the owner and on the allow-list.
    pub open spec fn valid(&self) -> bool {
        &&& valid_account_id(self.owner_id@)
        &&& self.token.valid()
        &&& self.metadata@.valid()
        &&& forall|i: int|
            0 <= i < self.allow_list@.len() ==> valid_account_id(
                #[trigger] key_at(self.allow_list@, i),
            )
    }
}

/// The ledger service: one owned aggregate of the token, its metadata and the
/// allow-list.
pub struct Contract {
    owner_id: String,
    token: Ledger,
    metadata: TokenMetadata,
    factory_whitelist: AllowList,
}

impl View for Contract {
    type V = ContractView;

    closed spec fn view(&self) -> ContractView {
        ContractView {
            owner_id: self.owner_id@,
            token: self.token@,
            metadata: self.metadata@,
            allowed: self.factory_whitelist@,
        }
    }
}

impl Contract {
    /// The service's invariant: the ledger's own, and every identifier that
    /// the service keeps is valid.
    pub closed spec fn wf(&self) -> bool {
        &&& self.token.wf()
        &&& valid_account_id(self.owner_id@)
        &&& self.metadata@.valid()
        &&& forall|a: Seq<char>| self.factory_whitelist@.contains(a) ==> valid_account_id(a)
    }

    /// What the invariant means for the service's view.
    pub proof fn lemma_wf(&self)
        requires
            self.wf(),
        ensures
            valid_account_id(self@.owner_id),
            self@.metadata.valid(),
            self@.token.conserved(),
            forall|a: Seq<char>| self@.token.is_registered(a) ==> valid_account_id(a),
            forall|a: Seq<char>| self@.allowed.contains(a) ==> valid_account_id(a),
    {
        self.token.lemma_wf();
    }

    /// Why `new` fails, if it does.
    pub open spec fn new_failure(ctx: Context, owner_id: Seq<char>, metadata_valid: bool) -> Option<
        Error,
    > {
        if ctx.state_exists {
            Some(Error::AlreadyInitialized)
        } else if !valid_account_id(owner_id) {
            Some(Error::InvalidAccount)
        } else if !metadata_valid {
            Some(Error::InvalidMetadata)
        } else if ctx.account_storage_usage * ctx.storage_byte_cost > u128::MAX {
            Some(Error::Overflow)
        } else {
            None
        }
    }

    /// A ledger service right after its initialization: the owner is
    /// registered and holds the whole supply, nobody else is registered, and
    /// the allow-list is empty.
    pub open spec fn initial_view(
        ctx: Context,
        owner_id: Seq<char>,
        total_supply: u128,
        metadata: MetadataView,
    ) -> ContractView {
        ContractView {
            owner_id,
            token: LedgerView {
                balances: Map::empty().insert(owner_id, total_supply as nat),
                total_supply: total_supply as nat,
                account_storage_usage: ctx.account_storage_usage as nat,
                storage_price_per_byte: ctx.storage_byte_cost as nat,
            },
            metadata,
            allowed: Set::empty(),
        }
    }

    /// A new ledger service in which `owner_id` is registered and holds the
    /// whole `total_supply`, together with the notice of that one mint, for
    /// the host to publish.
    ///
    /// Fails with `AlreadyInitialized` when the state exists already, else
    /// with `InvalidAccount` when `owner_id` is malformed, else with
    /// `InvalidMetadata` when the metadata are, else with `Overflow` when the
    /// price of a registration does not fit into 128 bits.
    pub fn new(ctx: &Context, owner_id: &str, total_supply: u128, metadata: TokenMetadata) -> (r:
        Result<(Contract, MintEvent), Error>)
        ensures
            match Self::new_failure(*ctx, owner_id@, metadata@.valid()) {
                Some(e) => r == Err::<(Contract, MintEvent), Error>(e),
                None => r is Ok && r->Ok_0.0.wf() && r->Ok_0.0@ == Self::initial_view(
                    *ctx,
                    owner_id@,
                    total_supply,
                    metadata@,
                ) && r->Ok_0.1.records(owner_id@, total_supply),
            },
    {
        if ctx.state_exists {
            return Err(Error::AlreadyInitialized);
        }
        if !is_valid_account(owner_id) {
            return Err(Error::InvalidAccount);
        }
        if !metadata.is_valid() {
            return Err(Error::InvalidMetadata);
        }
        let mut token = match Ledger::new(ctx.account_storage_usage, ctx.storage_byte_cost) {
            Err(e) => {
                return Err(e);
            },
            Ok(token) => token,
        };
        token.open_account(owner_id);
        let minted = token.deposit(owner_id, total_supply);
        assert(minted is Ok);
        assert(token@.balances =~= Map::empty().insert(owner_id@, total_supply as nat));
        let contract = Contract {
            owner_id: owner_id.to_owned(),
            token,
            metadata,
            factory_whitelist: AllowList::new(),
        };
        let event = MintEvent {
            owner_id: owner_id.to_owned(),
            amount: total_supply,
            memo: MINT_MEMO.to_owned(),
        };
        Ok((contract, event))
    }

    /// A new ledger service like that of `new`, with metadata for trying it
    /// out.
    pub fn new_default_meta(ctx: &Context, owner_id: &str, total_supply: u128) -> (r: Result<
        (Contract, MintEvent),
        Error,
    >)
        ensures
            match Self::new_failure(*ctx, owner_id@, true) {
                Some(e) => r == Err::<(Contract, MintEvent), Error>(e),
                None => r is Ok && r->Ok_0.0.wf() && r->Ok_0.0@.metadata.is_default() && r->Ok_0.0@
                    == Self::initial_view(*ctx, owner_id@, total_supply, r->Ok_0.0@.metadata)
                    && r->Ok_0.1.records(owner_id@, total_supply),
            },
    {
        let metadata = TokenMetadata::default_meta();
        Self::new(ctx, owner_id, total_supply, metadata)
    }

    /// The account that controls the ledger.
    pub fn owner_id(&self) -> (r: &String)
        ensures
            r@ == self@.owner_id,
    {
        &self.owner_id
    }

    /// The token's metadata.
    pub fn ft_metadata(&self) -> (r: &TokenMetadata)
        ensures
            r@ == self@.metadata,
    {
        &self.metadata
    }

    /// What `transfer` answers with, if not with a plan.
    pub open spec fn transfer_failure(&self, ctx: Context, receiver_id: Seq<char>) -> Option<
        Error,
    > {
        if ctx.predecessor_account_id@ != self@.owner_id {
            Some(Error::Unauthorized)
        } else if !valid_account_id(receiver_id) {
            Some(Error::InvalidAccount)
        } else {
            None
        }
    }

    /// Starts the workflow that moves `amount` of the counterpart's tokens to
    /// `receiver_id` and then puts the receiver on the allow-list.
    ///
    /// Only the owner may call it, and the receiver's identifier must be
    /// valid. It changes nothing in the ledger: it answers with the outbound
    /// call to the owner's account and the callback to the ledger's own, for
    /// the host to issue together.
    pub fn transfer(&mut self, ctx: &Context, receiver_id: &str, amount: u128) -> (r: Result<
        TransferPlan,
        Error,
    >)
        ensures
            *final(self) == *old(self),
            match old(self).transfer_failure(*ctx, receiver_id@) {
                Some(e) => r == Err::<TransferPlan, Error>(e),
                None => r is Ok && r->Ok_0.is_for(
                    ctx.predecessor_account_id@,
                    old(self)@.owner_id,
                    ctx.current_account_id@,
                    receiver_id@,
                    amount,
                ),
            },
    {
        if !same_text(ctx.predecessor_account_id.as_str(), self.owner_id.as_str()) {
            return Err(Error::Unauthorized);
        }
        if !is_valid_account(receiver_id) {
            return Err(Error::InvalidAccount);
        }
        Ok(
            TransferPlan {
                intent: TransferIntent {
                    recipient: receiver_id.to_owned(),
                    amount,
                    caller: ctx.predecessor_account_id.clone(),
                },
                outbound: OutboundTransfer {
                    account_id: self.owner_id.clone(),
                    method_name: FT_TRANSFER_METHOD.to_owned(),
                    request: TransferRequest { receiver_id: receiver_id.to_owned(), amount },
                    deposit: ONE_YOCTO,
                    gas: GAS_FOR_FT_TRANSFER_CALL,
                },
                callback: RegisterCallback {
                    account_id: ctx.current_account_id.clone(),
                    method_name: ADD_WHITELIST_METHOD.to_owned(),
                    recipient: receiver_id.to_owned(),
                    deposit: NO_DEPOSIT,
                    gas: GAS_FOR_ADD_WHITELIST_CALL,
                },
            },
        )
    }

    /// What `add_whitelist` answers.
    pub open spec fn add_whitelist_result(ctx: Context, account_id: Seq<char>) -> Result<
        bool,
        Error,
    > {
        if !valid_account_id(account_id) {
            Err(Error::InvalidAccount)
        } else {
            promise_outcome(ctx.promise_results@)
        }
    }

    /// The callback of `transfer`: settles the workflow for `account_id`.
    ///
    /// The identifier is checked again, and there must be exactly one promise
    /// result. If the outbound call succeeded, the account goes on the
    /// allow-list and the answer is `true`; if it failed, nothing changes and
    /// the answer is `false`.
    pub fn add_whitelist(&mut self, ctx: &Context, account_id: &str) -> (r: Result<bool, Error>)
        requires
            old(self).wf(),
        ensures
            final(self).wf(),
            r == Self::add_whitelist_result(*ctx, account_id@),
            r is Err ==> final(self)@ == old(self)@,
            r matches Ok(succeeded) ==> final(self)@ == (ContractView {
                allowed: settle(
                    old(self)@.allowed,
                    Settlement { account: account_id@, succeeded },
                ),
                ..old(self)@
            }),
    {
        if !is_valid_account(account_id) {
            return Err(Error::InvalidAccount);
        }
        let creation_succeeded = match is_promise_success(ctx) {
            Err(e) => {
                return Err(e);
            },
            Ok(succeeded) => succeeded,
        };
        if creation_succeeded {
            self.factory_whitelist.mark_allowed(account_id);
        }
        Ok(creation_succeeded)
    }

    /// Whether `account_id` is on the allow-list. Fails with `InvalidAccount`
    /// when the identifier is malformed.
    pub fn is_whitelisted(&self, account_id: &str) -> (r: Result<bool, Error>)
        ensures
            !valid_account_id(account_id@) ==> r == Err::<bool, Error>(Error::InvalidAccount),
            valid_account_id(account_id@) ==> r == Ok::<bool, Error>(
                self@.allowed.contains(account_id@),
            ),
    {
        if !is_valid_account(account_id) {
            return Err(Error::InvalidAccount);
        }
        Ok(self.factory_whitelist.contains(account_id))
    }

    /// The number of tokens in circulation.
    pub fn ft_total_supply(&self) -> (r: u128)
        ensures
            r == self@.token.total_supply,
    {
        self.token.total_supply()
    }

    /// What `account_id` holds: nothing, if it is not registered.
    pub fn ft_balance_of(&self, account_id: &str) -> (r: u128)
        requires
            self.wf(),
        ensures
            r == self@.token.balance(account_id@),
    {
        self.token.balance_of(account_id)
    }

    /// Whether `account_id` is registered.
    pub fn is_registered(&self, account_id: &str) -> (r: bool)
        requires
            self.wf(),
        ensures
            r == self@.token.is_registered(account_id@),
    {
        self.token.registered(account_id)
    }

    /// Moves `amount` tokens from the caller to `receiver_id`, as
    /// `Ledger::transfer` does, and answers with the notice of the transfer,
    /// for the host to publish.
    pub fn ft_transfer(
        &mut self,
        ctx: &Context,
        receiver_id: &str,
        amount: u128,
        memo: Option<String>,
    ) -> (r: Result<TransferEvent, Error>)
        requires
            old(self).wf(),
        ensures
            final(self).wf(),
            final(self)@ == (ContractView {
                token: old(self)@.token.after(
                    Operation::Transfer {
                        sender: ctx.predecessor_account_id@,
                        receiver: receiver_id@,
                        amount,
                    },
                ),
                ..old(self)@
            }),
            match old(self)@.token.transfer_result(
                ctx.predecessor_account_id@,
                receiver_id@,
                amount,
            ) {
                Err(e) => r == Err::<TransferEvent, Error>(e) && final(self)@ == old(self)@,
                Ok(_) => r is Ok && r->Ok_0.records(
                    ctx.predecessor_account_id@,
                    receiver_id@,
                    amount,
                    memo,
                ),
            },
            !old(self)@.token.is_registered(receiver_id@) ==> r == Err::<TransferEvent, Error>(
                Error::AccountNotRegistered,
            ),
            final(self)@.token.total_supply == old(self)@.token.total_supply,
    {
        match self.token.transfer(ctx.predecessor_account_id.as_str(), receiver_id, amount) {
            Err(e) => Err(e),
            Ok(()) => Ok(
                TransferEvent {
                    old_owner_id: ctx.predecessor_account_id.clone(),
                    new_owner_id: receiver_id.to_owned(),
                    amount,
                    memo,
                },
            ),
        }
    }

    /// Registers `account_id`, or the caller if none is given, against the
    /// deposit attached to the call, as `Ledger::register` does.
    /// `registration_only` has no effect: a registration is all that a
    /// deposit can pay for.
    pub fn storage_deposit(
        &mut self,
        ctx: &Context,
        account_id: Option<&str>,
        registration_only: Option<bool>,
    ) -> (r: Result<RegistrationOutcome, Error>)
        requires
            old(self).wf(),
        ensures
            final(self).wf(),
            r == old(self)@.token.register_result(
                Self::deposit_account(*ctx, account_id),
                ctx.attached_deposit,
            ),
            final(self)@ == (ContractView {
                token: LedgerView {
                    balances: if r is Ok && r->Ok_0.newly_registered {
                        old(self)@.token.balances.insert(Self::deposit_account(*ctx, account_id), 0)
                    } else {
                        old(self)@.token.balances
                    },
                    ..old(self)@.token
                },
                ..old(self)@
            }),
    {
        let _ = registration_only;
        let account: &str = match account_id {
            Some(id) => id,
            None => ctx.predecessor_account_id.as_str(),
        };
        self.token.register(account, ctx.attached_deposit)
    }

    /// The account that `storage_deposit` registers.
    pub open spec fn deposit_account(ctx: Context, account_id: Option<&str>) -> Seq<char> {
        match account_id {
            Some(id) => id@,
            None => ctx.predecessor_account_id@,
        }
    }

    /// Removes the caller's registration, as `Ledger::unregister` does.
    pub fn storage_unregister(&mut self, ctx: &Context) -> (r: Result<UnregistrationOutcome, Error>)
        requires
            old(self).wf(),
        ensures
            final(self).wf(),
            r == old(self)@.token.unregister_result(ctx.predecessor_account_id@),
            final(self)@ == (ContractView {
                token: LedgerView {
                    balances: if r is Ok && r->Ok_0.removed {
                        old(self)@.token.balances.remove(ctx.predecessor_account_id@)
                    } else {
                        old(self)@.token.balances
                    },
                    ..old(self)@.token
                },
                ..old(self)@
            }),
    {
        self.token.unregister(ctx.predecessor_account_id.as_str())
    }

    /// The deposit that a registration takes.
    pub fn storage_balance_bounds(&self) -> (r: StorageBalanceBounds)
        requires
            self.wf(),
        ensures
            r.min == self@.token.registration_price(),
            r.max == Some(r.min),
    {
        self.token.storage_balance_bounds()
    }

    /// The service as plain data.
    pub fn snapshot(&self) -> (r: ContractState)
        requires
            self.wf(),
        ensures
            r.valid(),
            r@ == self@,
    {
        let allow_list = self.factory_whitelist.snapshot();
        proof {
            assert forall|i: int| 0 <= i < allow_list@.len() implies valid_account_id(
                #[trigger] key_at(allow_list@, i),
            ) by {
                assert(members_set(allow_list@).contains(key_at(allow_list@, i)));
            }
        }
        ContractState {
            owner_id: self.owner_id.clone(),
            token: self.token.snapshot(),
            metadata: self.metadata.duplicate(),
            allow_list,
        }
    }

    /// The service that `state` describes, if it describes one.
    pub fn restore(state: ContractState) -> (r: Option<Contract>)
        ensures
            r is Some <==> state.valid(),
            r matches Some(contract) ==> contract.wf() && contract@ == state@,
    {
        if !is_valid_account(state.owner_id.as_str()) {
            return None;
        }
        if !state.metadata.is_valid() {
            return None;
        }
        let token = match Ledger::restore(&state.token) {
            None => {
                return None;
            },
            Some(token) => token,
        };
        let n: usize = state.allow_list.len();
        let mut i: usize = 0;
        while i < n
            invariant
                i <= n,
                n == state.allow_list@.len(),
                forall|j: int|
                    0 <= j < i ==> valid_account_id(#[trigger] key_at(state.allow_list@, j)),
            decreases n - i,
        {
            if !is_valid_account(state.allow_list[i].as_str()) {
                assert(!valid_account_id(key_at(state.allow_list@, i as int)));
                return None;
            }
            i += 1;
        }
        Some(
            Contract {
                owner_id: state.owner_id,
                token,
                metadata: state.metadata,
                factory_whitelist: AllowList::restore(state.allow_list),
            },
        )
    }
}

} // verus!
