use fungible_token::events::MINT_MEMO;
use fungible_token::metadata::{DATA_IMAGE_SVG_NEAR_ICON, FT_METADATA_SPEC};
use fungible_token::workflow::{
    ADD_WHITELIST_METHOD, FT_TRANSFER_METHOD, GAS_FOR_ADD_WHITELIST_CALL, GAS_FOR_FT_TRANSFER_CALL,
};
use fungible_token::{
    is_promise_success, Context, Contract, ContractState, Error, PromiseResult,
    RegistrationOutcome, TokenMetadata, UnregistrationOutcome,
};

const TOTAL_SUPPLY: u128 = 1_000_000_000_000_000;

fn accounts(id: usize) -> &'static str {
    ["alice", "bob", "charlie", "danny", "eugene", "fargo"][id]
}

fn get_context(predecessor_account_id: &str) -> Context {
    Context {
        current_account_id: accounts(0).to_string(),
        predecessor_account_id: predecessor_account_id.to_string(),
        attached_deposit: 0,
        state_exists: false,
        account_storage_usage: 125,
        storage_byte_cost: 10_000_000_000_000_000_000,
        promise_results: Vec::new(),
    }
}

fn call_by(predecessor_account_id: &str, attached_deposit: u128) -> Context {
    let mut context = get_context(predecessor_account_id);
    context.state_exists = true;
    context.attached_deposit = attached_deposit;
    context
}

fn callback_with(promise_results: Vec<PromiseResult>) -> Context {
    let mut context = call_by(accounts(0), 0);
    context.promise_results = promise_results;
    context
}

fn new_contract(owner_id: &str, total_supply: u128) -> Contract {
    Contract::new_default_meta(&get_context(owner_id), owner_id, total_supply).unwrap().0
}

#[test]
fn test_new() {
    let context = get_context(accounts(1));
    let (contract, _) = Contract::new_default_meta(&context, accounts(1), TOTAL_SUPPLY).unwrap();
    assert_eq!(contract.ft_total_supply(), TOTAL_SUPPLY);
    assert_eq!(contract.ft_balance_of(accounts(1)), TOTAL_SUPPLY);
}

// The outbound call of this workflow goes to the owner's account, which here
// is the ledger's own: the test plays the host, delivers the call and then
// runs the callback with its result.
#[test]
fn test_new_transfer() {
    let mut context = get_context(accounts(0));
    let (mut contract, _) =
        Contract::new_default_meta(&context, accounts(0), TOTAL_SUPPLY).unwrap();
    context.state_exists = true;
    context.attached_deposit = contract.storage_balance_bounds().min;
    context.predecessor_account_id = accounts(1).to_string();
    // Paying for account registration, aka storage deposit
    contract.storage_deposit(&context, None, None).unwrap();

    context.attached_deposit = 1;
    context.predecessor_account_id = accounts(0).to_string();

    let transfer_amount = TOTAL_SUPPLY / 2;
    let plan = contract.transfer(&context, accounts(1), transfer_amount).unwrap();

    println!("Receipt - {:?}", plan);

    assert_eq!(plan.outbound.account_id, context.current_account_id);
    let mut delivery = call_by(&context.current_account_id, plan.outbound.deposit);
    let delivered = contract.ft_transfer(
        &delivery,
        &plan.outbound.request.receiver_id,
        plan.outbound.request.amount,
        None,
    );
    delivery.attached_deposit = plan.callback.deposit;
    delivery.promise_results = vec![match delivered {
        Ok(_) => PromiseResult::Successful(Vec::new()),
        Err(_) => PromiseResult::Failed,
    }];
    assert_eq!(contract.add_whitelist(&delivery, &plan.callback.recipient), Ok(true));

    context.attached_deposit = 0;
    assert_eq!(contract.ft_balance_of(accounts(0)), (TOTAL_SUPPLY - transfer_amount));
    assert_eq!(contract.ft_balance_of(accounts(1)), transfer_amount);
}

#[test]
fn test_transfer() {
    let mut context = get_context(accounts(2));
    let (mut contract, _) =
        Contract::new_default_meta(&context, accounts(2), TOTAL_SUPPLY).unwrap();
    context.state_exists = true;
    context.attached_deposit = contract.storage_balance_bounds().min;
    context.predecessor_account_id = accounts(1).to_string();
    // Paying for account registration, aka storage deposit
    contract.storage_deposit(&context, None, None).unwrap();

    context.attached_deposit = 1;
    context.predecessor_account_id = accounts(2).to_string();
    let transfer_amount = TOTAL_SUPPLY / 3;
    contract.ft_transfer(&context, accounts(1), transfer_amount, None).unwrap();

    context.attached_deposit = 0;
    assert_eq!(contract.ft_balance_of(accounts(2)), (TOTAL_SUPPLY - transfer_amount));
    assert_eq!(contract.ft_balance_of(accounts(1)), transfer_amount);
}

#[test]
fn the_owner_holds_the_whole_supply_after_initialization() {
    let contract = new_contract("alice", 1_000_000);
    assert_eq!(contract.ft_balance_of("alice"), 1_000_000);
    assert_eq!(contract.ft_total_supply(), 1_000_000);
    assert_eq!(contract.owner_id(), "alice");
    assert_eq!(contract.ft_balance_of("bob"), 0);
}

#[test]
fn initialization_reports_the_mint() {
    let context = get_context("alice");
    let (_, minted) = Contract::new_default_meta(&context, "alice", 1_000_000).unwrap();
    assert_eq!(minted.owner_id, "alice");
    assert_eq!(minted.amount, 1_000_000);
    assert_eq!(minted.memo, MINT_MEMO);
    assert_eq!(minted.memo, "Initial tokens supply is minted");
}

#[test]
fn initialization_keeps_the_default_metadata() {
    let contract = new_contract("alice", 1);
    let metadata = contract.ft_metadata();
    assert_eq!(metadata.spec, FT_METADATA_SPEC);
    assert_eq!(metadata.spec, "ft-1.0.0");
    assert_eq!(metadata.name, "Example NEAR fungible token");
    assert_eq!(metadata.symbol, "EXAMPLE");
    assert_eq!(metadata.icon.as_deref(), Some(DATA_IMAGE_SVG_NEAR_ICON));
    assert_eq!(metadata.reference, None);
    assert_eq!(metadata.reference_hash, None);
    assert_eq!(metadata.decimals, 24);
}

#[test]
fn initialization_fails_when_the_state_exists() {
    let mut context = get_context("alice");
    context.state_exists = true;
    let r = Contract::new_default_meta(&context, "alice", 1_000_000);
    assert_eq!(r.err(), Some(Error::AlreadyInitialized));
    let r = Contract::new_default_meta(&context, "Not An Account", 1_000_000);
    assert_eq!(r.err(), Some(Error::AlreadyInitialized));
}

#[test]
fn initialization_refuses_a_malformed_owner() {
    let r = Contract::new_default_meta(&get_context("alice"), "Alice", 1_000_000);
    assert_eq!(r.err(), Some(Error::InvalidAccount));
}

#[test]
fn initialization_refuses_malformed_metadata() {
    let context = get_context("alice");

    let mut metadata = TokenMetadata::default_meta();
    metadata.spec = "ft-2.0.0".to_string();
    assert_eq!(Contract::new(&context, "alice", 1, metadata).err(), Some(Error::InvalidMetadata));

    let mut metadata = TokenMetadata::default_meta();
    metadata.reference = Some("https://example.com/token.json".to_string());
    assert_eq!(Contract::new(&context, "alice", 1, metadata).err(), Some(Error::InvalidMetadata));

    let mut metadata = TokenMetadata::default_meta();
    metadata.reference_hash = Some(vec![0; 32]);
    assert_eq!(Contract::new(&context, "alice", 1, metadata).err(), Some(Error::InvalidMetadata));

    let mut metadata = TokenMetadata::default_meta();
    metadata.reference = Some("https://example.com/token.json".to_string());
    metadata.reference_hash = Some(vec![0; 31]);
    assert_eq!(Contract::new(&context, "alice", 1, metadata).err(), Some(Error::InvalidMetadata));

    let mut metadata = TokenMetadata::default_meta();
    metadata.reference = Some("https://example.com/token.json".to_string());
    metadata.reference_hash = Some(vec![0; 32]);
    metadata.name = "Wrapped".to_string();
    let (contract, _) = Contract::new(&context, "alice", 1, metadata).unwrap();
    assert_eq!(contract.ft_metadata().name, "Wrapped");
    assert_eq!(contract.ft_metadata().reference_hash, Some(vec![0; 32]));
}

#[test]
fn initialization_refuses_a_registration_price_beyond_128_bits() {
    let mut context = get_context("alice");
    context.account_storage_usage = 2;
    context.storage_byte_cost = u128::MAX;
    let r = Contract::new_default_meta(&context, "alice", 1_000_000);
    assert_eq!(r.err(), Some(Error::Overflow));
}

#[test]
fn a_standard_transfer_moves_tokens_to_a_registered_account() {
    let mut contract = new_contract("alice", 1_000_000);
    let price = contract.storage_balance_bounds().min;
    assert_eq!(price, 1_250_000_000_000_000_000_000);
    let outcome = contract.storage_deposit(&call_by("bob", price), None, None).unwrap();
    assert_eq!(outcome, RegistrationOutcome { newly_registered: true, charged: price, refund: 0 });
    let event = contract
        .ft_transfer(&call_by("alice", 1), "bob", 300_000, Some("rent".to_string()))
        .unwrap();
    assert_eq!(contract.ft_balance_of("alice"), 700_000);
    assert_eq!(contract.ft_balance_of("bob"), 300_000);
    assert_eq!(contract.ft_total_supply(), 1_000_000);
    assert_eq!(event.old_owner_id, "alice");
    assert_eq!(event.new_owner_id, "bob");
    assert_eq!(event.amount, 300_000);
    assert_eq!(event.memo.as_deref(), Some("rent"));
}

#[test]
fn a_standard_transfer_into_an_unregistered_account_fails() {
    let mut contract = new_contract("alice", 1_000_000);
    let r = contract.ft_transfer(&call_by("alice", 1), "bob", 300_000, None);
    assert_eq!(r.err(), Some(Error::AccountNotRegistered));
    let r = contract.ft_transfer(&call_by("alice", 1), "Not An Account", 300_000, None);
    assert_eq!(r.err(), Some(Error::AccountNotRegistered));
    assert_eq!(contract.ft_balance_of("alice"), 1_000_000);
    assert_eq!(contract.ft_balance_of("bob"), 0);
}

#[test]
fn a_standard_transfer_reports_the_ledgers_errors() {
    let mut contract = new_contract("alice", 1_000_000);
    let price = contract.storage_balance_bounds().min;
    contract.storage_deposit(&call_by("bob", price), None, None).unwrap();
    let by_alice = call_by("alice", 1);
    assert_eq!(contract.ft_transfer(&by_alice, "alice", 1, None).err(), Some(Error::SelfTransfer));
    assert_eq!(contract.ft_transfer(&by_alice, "bob", 0, None).err(), Some(Error::ZeroAmount));
    assert_eq!(
        contract.ft_transfer(&by_alice, "bob", 1_000_001, None).err(),
        Some(Error::InsufficientBalance)
    );
    assert_eq!(
        contract.ft_transfer(&call_by("charlie", 1), "bob", 1, None).err(),
        Some(Error::InsufficientBalance)
    );
    assert_eq!(contract.ft_balance_of("alice"), 1_000_000);
    assert_eq!(contract.ft_balance_of("bob"), 0);
}

#[test]
fn storage_deposit_registers_the_named_account_or_the_caller() {
    let mut contract = new_contract("alice", 10);
    let price = contract.storage_balance_bounds().min;
    let outcome =
        contract.storage_deposit(&call_by("bob", price + 5), Some("charlie"), Some(true)).unwrap();
    assert_eq!(outcome, RegistrationOutcome { newly_registered: true, charged: price, refund: 5 });
    contract.ft_transfer(&call_by("alice", 1), "charlie", 4, None).unwrap();
    assert_eq!(contract.ft_balance_of("charlie"), 4);
    assert_eq!(
        contract.ft_transfer(&call_by("alice", 1), "bob", 4, None).err(),
        Some(Error::AccountNotRegistered)
    );
    let outcome = contract.storage_deposit(&call_by("bob", price), None, None).unwrap();
    assert!(outcome.newly_registered);
    contract.ft_transfer(&call_by("alice", 1), "bob", 4, None).unwrap();
    assert_eq!(contract.ft_balance_of("bob"), 4);
}

#[test]
fn storage_deposit_for_a_registered_account_refunds_everything() {
    let mut contract = new_contract("alice", 10);
    let outcome = contract.storage_deposit(&call_by("alice", 77), None, None).unwrap();
    assert_eq!(outcome, RegistrationOutcome { newly_registered: false, charged: 0, refund: 77 });
    assert_eq!(contract.ft_balance_of("alice"), 10);
    assert_eq!(contract.ft_total_supply(), 10);
}

#[test]
fn storage_deposit_fails_on_too_small_a_deposit() {
    let mut contract = new_contract("alice", 10);
    let price = contract.storage_balance_bounds().min;
    let r = contract.storage_deposit(&call_by("bob", price - 1), None, None);
    assert_eq!(r, Err(Error::InsufficientDeposit));
    let r = contract.storage_deposit(&call_by("bob", price), Some("Bob"), None);
    assert_eq!(r, Err(Error::InvalidAccount));
}

#[test]
fn storage_unregister_removes_the_callers_empty_account() {
    let mut contract = new_contract("alice", 10);
    let price = contract.storage_balance_bounds().min;
    contract.storage_deposit(&call_by("bob", price), None, None).unwrap();
    assert_eq!(contract.storage_unregister(&call_by("alice", 1)), Err(Error::NonZeroBalance));
    assert_eq!(
        contract.storage_unregister(&call_by("charlie", 1)),
        Ok(UnregistrationOutcome { removed: false, refund: 0 })
    );
    assert_eq!(
        contract.storage_unregister(&call_by("bob", 1)),
        Ok(UnregistrationOutcome { removed: true, refund: price })
    );
    assert_eq!(
        contract.ft_transfer(&call_by("alice", 1), "bob", 4, None).err(),
        Some(Error::AccountNotRegistered)
    );
    assert_eq!(contract.ft_balance_of("alice"), 10);
}

#[test]
fn transfer_plans_the_outbound_call_and_the_callback() {
    let mut contract = new_contract("bob", 1_000);
    let plan = contract.transfer(&call_by("bob", 1), "charlie", 100).unwrap();
    assert_eq!(plan.intent.recipient, "charlie");
    assert_eq!(plan.intent.amount, 100);
    assert_eq!(plan.intent.caller, "bob");
    assert_eq!(plan.outbound.account_id, "bob");
    assert_eq!(plan.outbound.method_name, FT_TRANSFER_METHOD);
    assert_eq!(plan.outbound.method_name, "ft_transfer");
    assert_eq!(plan.outbound.request.receiver_id, "charlie");
    assert_eq!(plan.outbound.request.amount, 100);
    assert_eq!(plan.outbound.deposit, 1);
    assert_eq!(plan.outbound.gas, GAS_FOR_FT_TRANSFER_CALL);
    assert_eq!(plan.outbound.gas, 60_000_000_000_000);
    assert_eq!(plan.callback.account_id, "alice");
    assert_eq!(plan.callback.method_name, ADD_WHITELIST_METHOD);
    assert_eq!(plan.callback.method_name, "add_whitelist");
    assert_eq!(plan.callback.recipient, "charlie");
    assert_eq!(plan.callback.deposit, 0);
    assert_eq!(plan.callback.gas, GAS_FOR_ADD_WHITELIST_CALL);
    assert_eq!(plan.callback.gas, 30_000_000_000_000);
}

#[test]
fn transfer_changes_nothing_in_the_ledger() {
    let mut contract = new_contract("alice", 1_000);
    contract.transfer(&call_by("alice", 1), "charlie", 100).unwrap();
    assert_eq!(contract.ft_balance_of("alice"), 1_000);
    assert_eq!(contract.ft_balance_of("charlie"), 0);
    assert_eq!(contract.ft_total_supply(), 1_000);
    assert_eq!(contract.is_whitelisted("charlie"), Ok(false));
}

#[test]
fn transfer_is_for_the_owner_only() {
    let mut contract = new_contract("bob", 1_000);
    let r = contract.transfer(&call_by("charlie", 1), "charlie", 100);
    assert_eq!(r.err(), Some(Error::Unauthorized));
    // The ledger's own account is not the owner either.
    let r = contract.transfer(&call_by("alice", 1), "charlie", 100);
    assert_eq!(r.err(), Some(Error::Unauthorized));
    let r = contract.transfer(&call_by("charlie", 1), "Not An Account", 100);
    assert_eq!(r.err(), Some(Error::Unauthorized));
}

#[test]
fn transfer_refuses_a_malformed_recipient() {
    let mut contract = new_contract("alice", 1_000);
    let r = contract.transfer(&call_by("alice", 1), "charlie.", 100);
    assert_eq!(r.err(), Some(Error::InvalidAccount));
}

#[test]
fn a_failed_outbound_call_leaves_the_recipient_off_the_allow_list() {
    let mut contract = new_contract("alice", 1_000);
    let plan = contract.transfer(&call_by("alice", 1), "charlie", 100).unwrap();
    let settled =
        contract.add_whitelist(&callback_with(vec![PromiseResult::Failed]), &plan.callback.recipient);
    assert_eq!(settled, Ok(false));
    assert_eq!(contract.is_whitelisted("charlie"), Ok(false));
}

#[test]
fn a_successful_outbound_call_puts_the_recipient_on_the_allow_list() {
    let mut contract = new_contract("alice", 1_000);
    let plan = contract.transfer(&call_by("alice", 1), "charlie", 100).unwrap();
    let settled = contract.add_whitelist(
        &callback_with(vec![PromiseResult::Successful(Vec::new())]),
        &plan.callback.recipient,
    );
    assert_eq!(settled, Ok(true));
    assert_eq!(contract.is_whitelisted("charlie"), Ok(true));
    assert_eq!(contract.is_whitelisted("bob"), Ok(false));
}

#[test]
fn the_callback_insists_on_exactly_one_result() {
    let mut contract = new_contract("alice", 1_000);
    contract.transfer(&call_by("alice", 1), "charlie", 100).unwrap();
    let none = callback_with(Vec::new());
    assert_eq!(contract.add_whitelist(&none, "charlie"), Err(Error::CallbackResultCountMismatch));
    let two = callback_with(vec![
        PromiseResult::Successful(Vec::new()),
        PromiseResult::Successful(Vec::new()),
    ]);
    assert_eq!(contract.add_whitelist(&two, "charlie"), Err(Error::CallbackResultCountMismatch));
    assert_eq!(contract.is_whitelisted("charlie"), Ok(false));
}

#[test]
fn the_callback_checks_the_recipient_again() {
    let mut contract = new_contract("alice", 1_000);
    let ok = callback_with(vec![PromiseResult::Successful(Vec::new())]);
    assert_eq!(contract.add_whitelist(&ok, "Charlie"), Err(Error::InvalidAccount));
    let none = callback_with(Vec::new());
    assert_eq!(contract.add_whitelist(&none, "Charlie"), Err(Error::InvalidAccount));
}

#[test]
fn a_result_that_is_not_ready_counts_as_a_failure() {
    let mut contract = new_contract("alice", 1_000);
    let pending = callback_with(vec![PromiseResult::NotReady]);
    assert_eq!(contract.add_whitelist(&pending, "charlie"), Ok(false));
    assert_eq!(contract.is_whitelisted("charlie"), Ok(false));
}

#[test]
fn the_allow_list_only_grows_and_only_on_success() {
    let mut contract = new_contract("alice", 1_000);
    let ok = callback_with(vec![PromiseResult::Successful(b"null".to_vec())]);
    let failed = callback_with(vec![PromiseResult::Failed]);
    assert_eq!(contract.is_whitelisted("bob"), Ok(false));
    assert_eq!(contract.add_whitelist(&failed, "bob"), Ok(false));
    assert_eq!(contract.is_whitelisted("bob"), Ok(false));
    assert_eq!(contract.add_whitelist(&ok, "bob"), Ok(true));
    assert_eq!(contract.is_whitelisted("bob"), Ok(true));
    assert_eq!(contract.add_whitelist(&failed, "bob"), Ok(false));
    assert_eq!(contract.is_whitelisted("bob"), Ok(true));
    assert_eq!(contract.add_whitelist(&ok, "bob"), Ok(true));
    assert_eq!(contract.is_whitelisted("bob"), Ok(true));
    assert_eq!(contract.is_whitelisted("charlie"), Ok(false));
    let price = contract.storage_balance_bounds().min;
    contract.storage_deposit(&call_by("charlie", price), None, None).unwrap();
    contract.ft_transfer(&call_by("alice", 1), "charlie", 5, None).unwrap();
    assert_eq!(contract.is_whitelisted("charlie"), Ok(false));
    assert_eq!(contract.is_whitelisted("bob"), Ok(true));
}

#[test]
fn is_whitelisted_refuses_a_malformed_account() {
    let contract = new_contract("alice", 1_000);
    assert_eq!(contract.is_whitelisted("x"), Err(Error::InvalidAccount));
    assert_eq!(contract.is_whitelisted("al..ice"), Err(Error::InvalidAccount));
}

#[test]
fn is_promise_success_reads_the_one_result() {
    assert_eq!(is_promise_success(&callback_with(vec![PromiseResult::Successful(vec![1])])), Ok(true));
    assert_eq!(is_promise_success(&callback_with(vec![PromiseResult::Failed])), Ok(false));
    assert_eq!(is_promise_success(&callback_with(vec![PromiseResult::NotReady])), Ok(false));
    assert_eq!(
        is_promise_success(&callback_with(Vec::new())),
        Err(Error::CallbackResultCountMismatch)
    );
    assert_eq!(
        is_promise_success(&callback_with(vec![PromiseResult::Failed, PromiseResult::Failed])),
        Err(Error::CallbackResultCountMismatch)
    );
}

#[test]
fn a_restored_service_is_the_one_that_was_saved() {
    let mut contract = new_contract("alice", 1_000);
    let price = contract.storage_balance_bounds().min;
    contract.storage_deposit(&call_by("bob", price), None, None).unwrap();
    contract.ft_transfer(&call_by("alice", 1), "bob", 300, None).unwrap();
    let ok = callback_with(vec![PromiseResult::Successful(Vec::new())]);
    contract.add_whitelist(&ok, "charlie").unwrap();

    let state = contract.snapshot();
    assert_eq!(state.owner_id, "alice");
    assert_eq!(state.token.total_supply, 1_000);
    assert_eq!(state.allow_list, vec!["charlie".to_string()]);

    let mut restored = Contract::restore(state).unwrap();
    assert_eq!(restored.owner_id(), "alice");
    assert_eq!(restored.ft_total_supply(), 1_000);
    assert_eq!(restored.ft_balance_of("alice"), 700);
    assert_eq!(restored.ft_balance_of("bob"), 300);
    assert_eq!(restored.is_whitelisted("charlie"), Ok(true));
    assert_eq!(restored.is_whitelisted("bob"), Ok(false));
    assert_eq!(restored.ft_metadata().symbol, "EXAMPLE");
    assert_eq!(restored.storage_balance_bounds().min, price);
    restored.ft_transfer(&call_by("bob", 1), "alice", 300, None).unwrap();
    assert_eq!(restored.ft_balance_of("alice"), 1_000);
}

#[test]
fn restore_refuses_data_that_describe_no_service() {
    let saved = || -> ContractState { new_contract("alice", 1_000).snapshot() };
    assert!(Contract::restore(saved()).is_some());

    let mut state = saved();
    state.owner_id = "Alice".to_string();
    assert!(Contract::restore(state).is_none());

    let mut state = saved();
    state.token.total_supply = 999;
    assert!(Contract::restore(state).is_none());

    let mut state = saved();
    state.metadata.spec = "nft-1.0.0".to_string();
    assert!(Contract::restore(state).is_none());

    let mut state = saved();
    state.allow_list = vec!["bob".to_string(), "-bob".to_string()];
    assert!(Contract::restore(state).is_none());
}
